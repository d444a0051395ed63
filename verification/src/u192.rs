use vstd::prelude::*;
use vstd::arithmetic::div_mod::{
    lemma_fundamental_div_mod, lemma_fundamental_div_mod_converse, lemma_div_is_ordered_by_denominator,
    lemma_div_is_ordered, lemma_div_multiples_vanish, lemma_multiply_divide_lt, lemma_div_basics,
};
use vstd::arithmetic::mul::{lemma_mul_upper_bound,
    lemma_mul_is_distributive_add_other_way, lemma_mul_is_associative};

verus! {

/// 2^64, the radix of the limbs, as a u128.
pub const LIMB_RADIX: u128 = 0x1_0000_0000_0000_0000;

/// 2^192, one more than the largest value a `U192` can hold.
pub open spec fn pow2_192() -> nat {
    0x1_000000000000000000000000000000000000000000000000nat
}

/// 2^64 as a spec-level integer.
pub open spec fn pow2_64() -> nat {
    0x1_0000_0000_0000_0000nat
}

/// 2^128 as a spec-level integer.
pub open spec fn pow2_128() -> nat {
    0x1_00000000000000000000000000000000nat
}

/// A 192-bit unsigned integer, stored as three 64-bit limbs,
/// least significant limb first.
#[derive(Clone, Copy, Debug, PartialEq, Eq, Structural)]
pub struct U192 {
    pub w0: u64,
    pub w1: u64,
    pub w2: u64,
}

impl U192 {
    /// The mathematical value of the three limbs.
    pub open spec fn value(self) -> nat {
        self.w0 as nat + self.w1 as nat * pow2_64() + self.w2 as nat * pow2_128()
    }

    pub fn zero() -> (r: U192)
        ensures
            r.value() == 0,
    {
        U192 { w0: 0, w1: 0, w2: 0 }
    }

    pub fn one() -> (r: U192)
        ensures
            r.value() == 1,
    {
        U192 { w0: 1, w1: 0, w2: 0 }
    }

    pub fn from_u64(v: u64) -> (r: U192)
        ensures
            r.value() == v,
    {
        U192 { w0: v, w1: 0, w2: 0 }
    }

    pub fn from_u128(v: u128) -> (r: U192)
        ensures
            r.value() == v,
    {
        let lo: u64 = (v % LIMB_RADIX) as u64;
        let hi: u64 = (v / LIMB_RADIX) as u64;
        proof {
            lemma_fundamental_div_mod(v as int, LIMB_RADIX as int);
            lemma_multiply_divide_lt(v as int, pow2_64() as int, LIMB_RADIX as int);
        }
        U192 { w0: lo, w1: hi, w2: 0 }
    }

    pub fn is_zero(&self) -> (r: bool)
        ensures
            r == (self.value() == 0),
    {
        self.w0 == 0 && self.w1 == 0 && self.w2 == 0
    }

    pub fn is_one(&self) -> (r: bool)
        ensures
            r == (self.value() == 1),
    {
        self.w0 == 1 && self.w1 == 0 && self.w2 == 0
    }

    /// Strictly-less-than, by comparing limbs from the most significant down.
    pub fn lt(&self, rhs: &U192) -> (r: bool)
        ensures
            r == (self.value() < rhs.value()),
    {
        if self.w2 != rhs.w2 {
            self.w2 < rhs.w2
        } else if self.w1 != rhs.w1 {
            self.w1 < rhs.w1
        } else {
            self.w0 < rhs.w0
        }
    }

    pub fn le(&self, rhs: &U192) -> (r: bool)
        ensures
            r == (self.value() <= rhs.value()),
    {
        !rhs.lt(self)
    }

    /// Sum of the two values, or `None` when it does not fit in 192 bits.
    pub fn checked_add(&self, rhs: &U192) -> (r: Option<U192>)
        ensures
            match r {
                Some(s) => s.value() == self.value() + rhs.value(),
                None => self.value() + rhs.value() >= pow2_192(),
            },
    {
        let s0: u128 = self.w0 as u128 + rhs.w0 as u128;
        let r0: u64 = (s0 % LIMB_RADIX) as u64;
        let c0: u128 = s0 / LIMB_RADIX;
        proof {
            lemma_fundamental_div_mod(s0 as int, LIMB_RADIX as int);
            lemma_multiply_divide_lt(s0 as int, 2, LIMB_RADIX as int);
        }
        let s1: u128 = self.w1 as u128 + rhs.w1 as u128 + c0;
        let r1: u64 = (s1 % LIMB_RADIX) as u64;
        let c1: u128 = s1 / LIMB_RADIX;
        proof {
            lemma_fundamental_div_mod(s1 as int, LIMB_RADIX as int);
            lemma_multiply_divide_lt(s1 as int, 2, LIMB_RADIX as int);
        }
        let s2: u128 = self.w2 as u128 + rhs.w2 as u128 + c1;
        let r2: u64 = (s2 % LIMB_RADIX) as u64;
        let c2: u128 = s2 / LIMB_RADIX;
        proof {
            lemma_fundamental_div_mod(s2 as int, LIMB_RADIX as int);
            lemma_multiply_divide_lt(s2 as int, 2, LIMB_RADIX as int);
        }
        if c2 == 0 {
            Some(U192 { w0: r0, w1: r1, w2: r2 })
        } else {
            None
        }
    }

    /// Difference of the two values, or `None` when the subtrahend is larger.
    pub fn checked_sub(&self, rhs: &U192) -> (r: Option<U192>)
        ensures
            match r {
                Some(d) => rhs.value() <= self.value() && d.value() == self.value() - rhs.value(),
                None => self.value() < rhs.value(),
            },
    {
        let d0: u128 = self.w0 as u128 + LIMB_RADIX - rhs.w0 as u128;
        let r0: u64 = (d0 % LIMB_RADIX) as u64;
        let k0: u128 = 1 - d0 / LIMB_RADIX;
        proof {
            lemma_fundamental_div_mod(d0 as int, LIMB_RADIX as int);
            lemma_multiply_divide_lt(d0 as int, 2, LIMB_RADIX as int);
            assert(d0 >= LIMB_RADIX - 0xffff_ffff_ffff_ffff);
            assert(d0 / LIMB_RADIX >= 0);
        }
        let d1: u128 = self.w1 as u128 + LIMB_RADIX - rhs.w1 as u128 - k0;
        let r1: u64 = (d1 % LIMB_RADIX) as u64;
        let k1: u128 = 1 - d1 / LIMB_RADIX;
        proof {
            lemma_fundamental_div_mod(d1 as int, LIMB_RADIX as int);
            lemma_multiply_divide_lt(d1 as int, 2, LIMB_RADIX as int);
        }
        let d2: u128 = self.w2 as u128 + LIMB_RADIX - rhs.w2 as u128 - k1;
        let r2: u64 = (d2 % LIMB_RADIX) as u64;
        let k2: u128 = 1 - d2 / LIMB_RADIX;
        proof {
            lemma_fundamental_div_mod(d2 as int, LIMB_RADIX as int);
            lemma_multiply_divide_lt(d2 as int, 2, LIMB_RADIX as int);
        }
        if k2 == 0 {
            Some(U192 { w0: r0, w1: r1, w2: r2 })
        } else {
            None
        }
    }

    /// Half of the value, rounding down.
    pub fn half(&self) -> (r: U192)
        ensures
            r.value() == self.value() / 2,
    {
        let r2: u64 = self.w2 / 2;
        let r1: u64 = self.w1 / 2 + if self.w2 % 2 == 1 { 0x8000_0000_0000_0000u64 } else { 0u64 };
        let r0: u64 = self.w0 / 2 + if self.w1 % 2 == 1 { 0x8000_0000_0000_0000u64 } else { 0u64 };
        let r = U192 { w0: r0, w1: r1, w2: r2 };
        proof {
            lemma_fundamental_div_mod(self.w0 as int, 2);
            lemma_fundamental_div_mod(self.w1 as int, 2);
            lemma_fundamental_div_mod(self.w2 as int, 2);
            lemma_fundamental_div_mod_converse(
                self.value() as int,
                2,
                r.value() as int,
                (self.w0 % 2) as int,
            );
        }
        r
    }

    /// Product of the two values, or `None` when it does not fit in 192 bits.
    #[verifier::rlimit(60)]
    #[verifier::spinoff_prover]
    pub fn checked_mul(&self, rhs: &U192) -> (r: Option<U192>)
        ensures
            match r {
                Some(p) => p.value() == self.value() * rhs.value(),
                None => self.value() * rhs.value() >= pow2_192(),
            },
    {
        let a0: u128 = self.w0 as u128;
        let a1: u128 = self.w1 as u128;
        let a2: u128 = self.w2 as u128;
        let b0: u128 = rhs.w0 as u128;
        let b1: u128 = rhs.w1 as u128;
        let b2: u128 = rhs.w2 as u128;
        proof {
            lemma_mul_upper_bound(a0 as int, 0xffff_ffff_ffff_ffff, b0 as int, 0xffff_ffff_ffff_ffff);
            lemma_mul_upper_bound(a0 as int, 0xffff_ffff_ffff_ffff, b1 as int, 0xffff_ffff_ffff_ffff);
            lemma_mul_upper_bound(a0 as int, 0xffff_ffff_ffff_ffff, b2 as int, 0xffff_ffff_ffff_ffff);
            lemma_mul_upper_bound(a1 as int, 0xffff_ffff_ffff_ffff, b0 as int, 0xffff_ffff_ffff_ffff);
            lemma_mul_upper_bound(a1 as int, 0xffff_ffff_ffff_ffff, b1 as int, 0xffff_ffff_ffff_ffff);
            lemma_mul_upper_bound(a1 as int, 0xffff_ffff_ffff_ffff, b2 as int, 0xffff_ffff_ffff_ffff);
            lemma_mul_upper_bound(a2 as int, 0xffff_ffff_ffff_ffff, b0 as int, 0xffff_ffff_ffff_ffff);
            lemma_mul_upper_bound(a2 as int, 0xffff_ffff_ffff_ffff, b1 as int, 0xffff_ffff_ffff_ffff);
            lemma_mul_upper_bound(a2 as int, 0xffff_ffff_ffff_ffff, b2 as int, 0xffff_ffff_ffff_ffff);
        }
        let p00: u128 = a0 * b0;
        let p01: u128 = a0 * b1;
        let p02: u128 = a0 * b2;
        let p10: u128 = a1 * b0;
        let p11: u128 = a1 * b1;
        let p12: u128 = a1 * b2;
        let p20: u128 = a2 * b0;
        let p21: u128 = a2 * b1;
        let p22: u128 = a2 * b2;
        proof {
            lemma_split_128(p00 as int);
            lemma_split_128(p01 as int);
            lemma_split_128(p02 as int);
            lemma_split_128(p10 as int);
            lemma_split_128(p11 as int);
            lemma_split_128(p12 as int);
            lemma_split_128(p20 as int);
            lemma_split_128(p21 as int);
            lemma_split_128(p22 as int);
        }
        let r0: u64 = (p00 % LIMB_RADIX) as u64;
        let t1: u128 = p00 / LIMB_RADIX + p01 % LIMB_RADIX + p10 % LIMB_RADIX;
        let r1: u64 = (t1 % LIMB_RADIX) as u64;
        let c1: u128 = t1 / LIMB_RADIX;
        proof {
            lemma_split_sum(t1 as int, 3);
        }
        let t2: u128 = c1 + p01 / LIMB_RADIX + p10 / LIMB_RADIX + p02 % LIMB_RADIX + p11 % LIMB_RADIX
            + p20 % LIMB_RADIX;
        let r2: u64 = (t2 % LIMB_RADIX) as u64;
        let c2: u128 = t2 / LIMB_RADIX;
        proof {
            lemma_split_sum(t2 as int, 6);
        }
        let t3: u128 = c2 + p02 / LIMB_RADIX + p11 / LIMB_RADIX + p20 / LIMB_RADIX + p12 % LIMB_RADIX
            + p21 % LIMB_RADIX;
        let r3: u64 = (t3 % LIMB_RADIX) as u64;
        let c3: u128 = t3 / LIMB_RADIX;
        proof {
            lemma_split_sum(t3 as int, 6);
        }
        let t4: u128 = c3 + p12 / LIMB_RADIX + p21 / LIMB_RADIX + p22 % LIMB_RADIX;
        let r4: u64 = (t4 % LIMB_RADIX) as u64;
        let c4: u128 = t4 / LIMB_RADIX;
        proof {
            lemma_split_sum(t4 as int, 4);
        }
        let t5: u128 = c4 + p22 / LIMB_RADIX;
        proof {
            lemma_poly3_expand(
                a0 as int, a1 as int, a2 as int,
                b0 as int, b1 as int, b2 as int,
                0x1_0000_0000_0000_0000,
                0x1_00000000000000000000000000000000int,
                0x1_000000000000000000000000000000000000000000000000int,
                0x1_0000000000000000000000000000000000000000000000000000000000000000int,
            );
            assert(self.value() * rhs.value() == p00 + (p01 + p10)
                * 0x1_0000_0000_0000_0000 + (p02 + p11 + p20)
                * 0x1_00000000000000000000000000000000int + (p12 + p21)
                * 0x1_000000000000000000000000000000000000000000000000int + p22
                * 0x1_0000000000000000000000000000000000000000000000000000000000000000int);
            assert(self.value() * rhs.value() == r0 + r1 * 0x1_0000_0000_0000_0000 + r2
                * 0x1_00000000000000000000000000000000int + r3
                * 0x1_000000000000000000000000000000000000000000000000int + r4
                * 0x1_0000000000000000000000000000000000000000000000000000000000000000int + t5
                * 0x1_00000000000000000000000000000000000000000000000000000000000000000000000000000000int);
        }
        if r3 == 0 && r4 == 0 && t5 == 0 {
            Some(U192 { w0: r0, w1: r1, w2: r2 })
        } else {
            None
        }
    }

    /// Midpoint used by the quotient search: strictly above `lo`, at most `hi`.
    fn search_mid(lo: &U192, hi: &U192) -> (m: U192)
        requires
            lo.value() < hi.value(),
            hi.value() < 0x8_00000000000000000000000000000000000000000000000nat,
        ensures
            lo.value() < m.value() <= hi.value(),
    {
        let diff: U192 = match hi.checked_sub(lo) {
            Some(d) => d,
            None => {
                proof {
                    assert(false);
                }
                U192::zero()
            },
        };
        let diffp: U192 = match diff.checked_add(&U192::one()) {
            Some(d) => d,
            None => {
                proof {
                    assert(false);
                }
                U192::zero()
            },
        };
        let half_up: U192 = diffp.half();
        proof {
            lemma_fundamental_div_mod(diffp.value() as int, 2);
            assert(1 <= half_up.value() <= diff.value());
        }
        match lo.checked_add(&half_up) {
            Some(m) => m,
            None => {
                proof {
                    assert(false);
                }
                U192::zero()
            },
        }
    }

    /// One narrowing step of the quotient search.
    fn search_narrow(a: &U192, d: &U192, lo: &U192, hi: &U192) -> (r: (U192, U192))
        requires
            d.value() >= 2,
            lo.value() <= a.value() / d.value(),
            a.value() / d.value() <= hi.value(),
            lo.value() < hi.value(),
            hi.value() < 0x8_00000000000000000000000000000000000000000000000nat,
        ensures
            r.0.value() <= a.value() / d.value(),
            a.value() / d.value() <= r.1.value(),
            r.1.value() <= hi.value(),
            r.1.value() - r.0.value() < hi.value() - lo.value(),
    {
        let mid: U192 = U192::search_mid(lo, hi);
        match mid.checked_mul(d) {
            Some(p) => {
                if p.le(a) {
                    proof {
                        lemma_div_is_ordered(
                            (mid.value() * d.value()) as int,
                            a.value() as int,
                            d.value() as int,
                        );
                        lemma_div_multiples_vanish(mid.value() as int, d.value() as int);
                        assert(mid.value() <= a.value() / d.value());
                        assert(a.value() / d.value() <= hi.value());
                    }
                    (mid, *hi)
                } else {
                    proof {
                        assert(a.value() < p.value());
                        assert(a.value() < mid.value() * d.value());
                        lemma_multiply_divide_lt(
                            a.value() as int,
                            d.value() as int,
                            mid.value() as int,
                        );
                        assert(a.value() / d.value() < mid.value());
                    }
                    (*lo, U192::pred(&mid))
                }
            },
            None => {
                proof {
                    assert(a.value() < pow2_192());
                    assert(a.value() < mid.value() * d.value());
                    lemma_multiply_divide_lt(a.value() as int, d.value() as int, mid.value() as int);
                    assert(a.value() / d.value() < mid.value());
                }
                (*lo, U192::pred(&mid))
            },
        }
    }

    /// One less than the value.
    fn pred(x: &U192) -> (r: U192)
        requires
            x.value() >= 1,
        ensures
            r.value() == x.value() - 1,
    {
        match x.checked_sub(&U192::one()) {
            Some(m) => m,
            None => {
                proof {
                    assert(false);
                }
                U192::zero()
            },
        }
    }

    /// Euclidean quotient of the two values, or `None` when the divisor is zero.
    ///
    /// The quotient is found by binary search over the candidate range,
    /// narrowing with one checked multiplication per step.
    pub fn checked_div(&self, rhs: &U192) -> (r: Option<U192>)
        ensures
            match r {
                Some(q) => rhs.value() != 0 && q.value() == self.value() / rhs.value(),
                None => rhs.value() == 0,
            },
    {
        if rhs.is_zero() {
            return None;
        }
        if rhs.is_one() {
            proof {
                lemma_div_basics(self.value() as int);
            }
            return Some(*self);
        }
        let mut lo: U192 = U192::zero();
        let mut hi: U192 = self.half();
        proof {
            lemma_div_is_ordered_by_denominator(self.value() as int, 2, rhs.value() as int);
        }
        while lo.lt(&hi)
            invariant
                rhs.value() >= 2,
                lo.value() <= self.value() / rhs.value(),
                self.value() / rhs.value() <= hi.value(),
                hi.value() < 0x8_00000000000000000000000000000000000000000000000nat,
            decreases hi.value() - lo.value(),
        {
            let next: (U192, U192) = U192::search_narrow(self, rhs, &lo, &hi);
            lo = next.0;
            hi = next.1;
        }
        Some(lo)
    }
}

/// A value below 2^128 splits into a low and a high 64-bit part.
proof fn lemma_split_128(p: int)
    requires
        0 <= p < pow2_128(),
    ensures
        p == pow2_64() * (p / pow2_64() as int) + p % pow2_64() as int,
        0 <= p % pow2_64() as int,
        (p % pow2_64() as int) < pow2_64(),
        0 <= p / pow2_64() as int,
        (p / pow2_64() as int) < pow2_64(),
{
    lemma_fundamental_div_mod(p, pow2_64() as int);
    lemma_multiply_divide_lt(p, pow2_64() as int, pow2_64() as int);
}

/// A sum of at most `k` limb-sized terms splits into a limb and a small carry.
proof fn lemma_split_sum(t: int, k: int)
    requires
        1 <= k,
        0 <= t < k * pow2_64(),
    ensures
        t == pow2_64() * (t / pow2_64() as int) + t % pow2_64() as int,
        0 <= t % pow2_64() as int,
        (t % pow2_64() as int) < pow2_64(),
        0 <= t / pow2_64() as int,
        (t / pow2_64() as int) < k,
{
    lemma_fundamental_div_mod(t, pow2_64() as int);
    lemma_multiply_divide_lt(t, k, pow2_64() as int);
}


/// Schoolbook expansion of a product of two three-limb numbers over radix `k`.
#[verifier::rlimit(100)]
proof fn lemma_poly3_expand(a0: int, a1: int, a2: int, b0: int, b1: int, b2: int, k: int, k2: int, k3: int, k4: int)
    requires
        k2 == k * k,
        k3 == k2 * k,
        k4 == k3 * k,
    ensures
        (a0 + a1 * k + a2 * k2) * (b0 + b1 * k + b2 * k2) == a0 * b0 + (a0 * b1 + a1 * b0) * k + (
        a0 * b2 + a1 * b1 + a2 * b0) * k2 + (a1 * b2 + a2 * b1) * k3 + (a2 * b2) * k4,
{
    let al: int = a0 + a1 * k + a2 * k2;
    let bl: int = b0 + b1 * k + b2 * k2;
    assert(al * bl == al * b0 + al * (b1 * k) + al * (b2 * k2)) by (nonlinear_arith)
        requires
            bl == b0 + b1 * k + b2 * k2,
    ;
    assert(al * b0 == a0 * b0 + (a1 * b0) * k + (a2 * b0) * k2) by (nonlinear_arith)
        requires
            al == a0 + a1 * k + a2 * k2,
    ;
    assert(al * (b1 * k) == (a0 * b1) * k + (a1 * b1) * k2 + (a2 * b1) * k3) by (nonlinear_arith)
        requires
            al == a0 + a1 * k + a2 * k2,
            k2 == k * k,
            k3 == k2 * k,
    ;
    assert(k2 * k2 == k4 && k * k2 == k3) by (nonlinear_arith)
        requires
            k2 == k * k,
            k3 == k2 * k,
            k4 == k3 * k,
    ;
    let m: int = b2 * k2;
    lemma_mul_is_distributive_add_other_way(m, a0 + a1 * k, a2 * k2);
    lemma_mul_is_distributive_add_other_way(m, a0, a1 * k);
    lemma_mul_is_associative(a0, b2, k2);
    assert((a1 * k) * m == (a1 * b2) * k3) by (nonlinear_arith)
        requires
            m == b2 * k2,
            k3 == k * k2,
    ;
    assert((a2 * k2) * m == (a2 * b2) * k4) by (nonlinear_arith)
        requires
            m == b2 * k2,
            k4 == k2 * k2,
    ;
    assert(al * (b2 * k2) == (a0 * b2) * k2 + (a1 * b2) * k3 + (a2 * b2) * k4);
    lemma_mul_is_distributive_add_other_way(k, a0 * b1, a1 * b0);
    lemma_mul_is_distributive_add_other_way(k2, a0 * b2 + a1 * b1, a2 * b0);
    lemma_mul_is_distributive_add_other_way(k2, a0 * b2, a1 * b1);
    lemma_mul_is_distributive_add_other_way(k3, a1 * b2, a2 * b1);
}

} // verus!
