use vstd::prelude::*;
use vstd::arithmetic::div_mod::{lemma_div_multiples_vanish, lemma_fundamental_div_mod,
    lemma_div_decreases};
use vstd::arithmetic::mul::{lemma_mul_upper_bound, lemma_mul_is_commutative};
use crate::u192::{U192, pow2_192};
use crate::error::CoinbackedError;
use crate::utf8::{is_utf8, lemma_ascii_is_utf8, string_from_utf8, utf8_chars};

verus! {

/// Scale factor of the fixed-point representation: 10^18.
pub const WAD: u64 = 1_000_000_000_000_000_000;

/// Number of fractional decimal digits carried by a `Decimal`.
pub const SCALE: u32 = 18;

/// A non-negative fixed-point number with 18 decimal fractional digits,
/// stored as its value scaled by 10^18 in a 192-bit integer.
#[derive(Clone, Copy, Debug, PartialEq, Eq, Structural)]
pub struct Decimal(pub U192);

impl Decimal {
    /// The scaled representation as a mathematical integer: the represented
    /// number times 10^18.
    pub open spec fn raw(self) -> nat {
        self.0.value()
    }

    /// The scale factor as a `U192`.
    pub fn wad() -> (r: U192)
        ensures
            r.value() == WAD,
    {
        U192::from_u64(WAD)
    }

    /// The decimal representing the whole number `v`.
    pub fn from_u64(v: u64) -> (r: Decimal)
        ensures
            r.raw() == v as nat * WAD as nat,
    {
        proof {
            lemma_mul_upper_bound(v as int, 0xffff_ffff_ffff_ffff, WAD as int, WAD as int);
        }
        let scaled: U192 = match U192::from_u64(v).checked_mul(&Decimal::wad()) {
            Some(p) => p,
            None => {
                proof {
                    assert(false);
                }
                U192::zero()
            },
        };
        Decimal(scaled)
    }

    /// The decimal representing the whole number `v`.
    pub fn from_u128(v: u128) -> (r: Decimal)
        ensures
            r.raw() == v as nat * WAD as nat,
    {
        proof {
            lemma_mul_upper_bound(
                v as int,
                0xffff_ffff_ffff_ffff_ffff_ffff_ffff_ffff,
                WAD as int,
                WAD as int,
            );
        }
        let scaled: U192 = match U192::from_u128(v).checked_mul(&Decimal::wad()) {
            Some(p) => p,
            None => {
                proof {
                    assert(false);
                }
                U192::zero()
            },
        };
        Decimal(scaled)
    }

    /// The represented number rounded down to a whole `u64`.
    pub fn try_floor_u64(&self) -> (r: Result<u64, CoinbackedError>)
        ensures
            match r {
                Ok(v) => v == self.raw() / WAD as nat,
                Err(e) => e == CoinbackedError::MathError && self.raw() / WAD as nat
                    >= 0x1_0000_0000_0000_0000nat,
            },
    {
        let q: U192 = match self.0.checked_div(&Decimal::wad()) {
            Some(q) => q,
            None => {
                proof {
                    assert(false);
                }
                U192::zero()
            },
        };
        if q.w1 == 0 && q.w2 == 0 {
            Ok(q.w0)
        } else {
            Err(CoinbackedError::MathError)
        }
    }

    /// Checked addition of the scaled representations.
    pub fn try_add(self, rhs: Decimal) -> (r: Result<Decimal, CoinbackedError>)
        ensures
            match r {
                Ok(d) => self.raw() + rhs.raw() < pow2_192() && d.raw() == self.raw() + rhs.raw(),
                Err(e) => e == CoinbackedError::MathError && self.raw() + rhs.raw() >= pow2_192(),
            },
    {
        match self.0.checked_add(&rhs.0) {
            Some(s) => Ok(Decimal(s)),
            None => Err(CoinbackedError::MathError),
        }
    }

    /// Checked subtraction of the scaled representations.
    pub fn try_sub(self, rhs: Decimal) -> (r: Result<Decimal, CoinbackedError>)
        ensures
            match r {
                Ok(d) => rhs.raw() <= self.raw() && d.raw() == self.raw() - rhs.raw(),
                Err(e) => e == CoinbackedError::MathError && self.raw() < rhs.raw(),
            },
    {
        match self.0.checked_sub(&rhs.0) {
            Some(d) => Ok(Decimal(d)),
            None => Err(CoinbackedError::MathError),
        }
    }

    /// Checked multiplication: the scaled representations are multiplied
    /// first and only then normalized back by one scale factor, so no
    /// fractional digits are lost before the final rounding.
    pub fn try_mul(self, rhs: Decimal) -> (r: Result<Decimal, CoinbackedError>)
        ensures
            match r {
                Ok(d) => self.raw() * rhs.raw() < pow2_192() && d.raw() == self.raw() * rhs.raw()
                    / WAD as nat,
                Err(e) => e == CoinbackedError::MathError && self.raw() * rhs.raw() >= pow2_192(),
            },
    {
        match self.0.checked_mul(&rhs.0) {
            Some(p) => {
                let q: U192 = match p.checked_div(&Decimal::wad()) {
                    Some(q) => q,
                    None => {
                        proof {
                            assert(false);
                        }
                        U192::zero()
                    },
                };
                Ok(Decimal(q))
            },
            None => Err(CoinbackedError::MathError),
        }
    }

    /// Checked multiplication by a whole number.
    pub fn try_mul_u64(self, rhs: u64) -> (r: Result<Decimal, CoinbackedError>)
        ensures
            match r {
                Ok(d) => (self.raw() * rhs as nat) < pow2_192() && d.raw() == self.raw() * rhs as nat,
                Err(e) => e == CoinbackedError::MathError && self.raw() * rhs as nat >= pow2_192(),
            },
    {
        match self.0.checked_mul(&U192::from_u64(rhs)) {
            Some(p) => Ok(Decimal(p)),
            None => Err(CoinbackedError::MathError),
        }
    }

    /// Checked division: the dividend is scaled up by one scale factor
    /// before dividing, so no fractional digits are lost.
    pub fn try_div(self, rhs: Decimal) -> (r: Result<Decimal, CoinbackedError>)
        ensures
            match r {
                Ok(d) => (self.raw() * WAD as nat) < pow2_192() && rhs.raw() != 0 && d.raw()
                    == self.raw() * WAD as nat / rhs.raw(),
                Err(e) => e == CoinbackedError::MathError && ((self.raw() * WAD as nat) >= pow2_192()
                    || rhs.raw() == 0),
            },
    {
        match self.0.checked_mul(&Decimal::wad()) {
            Some(p) => match p.checked_div(&rhs.0) {
                Some(q) => Ok(Decimal(q)),
                None => Err(CoinbackedError::MathError),
            },
            None => Err(CoinbackedError::MathError),
        }
    }

    /// Checked division by a whole number.
    pub fn try_div_u64(self, rhs: u64) -> (r: Result<Decimal, CoinbackedError>)
        ensures
            match r {
                Ok(d) => rhs != 0 && d.raw() == self.raw() / rhs as nat,
                Err(e) => e == CoinbackedError::MathError && rhs == 0,
            },
    {
        match self.0.checked_div(&U192::from_u64(rhs)) {
            Some(q) => Ok(Decimal(q)),
            None => Err(CoinbackedError::MathError),
        }
    }

    /// Render the represented number as a decimal string, with the point
    /// 18 digits from the right and zero padding below one whole unit.
    pub fn to_display_string(&self) -> (r: String)
        ensures
            r@ == spec_display_bytes(self.raw()).map_values(|b: u8| b as char),
    {
        let ten: U192 = U192::from_u64(10);
        let mut lsb: Vec<u8> = Vec::new();
        let mut m: U192 = self.0;
        let ghost n0 = self.raw();
        proof {
            assert(dec_digits(n0) =~= dec_digits(m.value()) + lsb@.reverse());
        }
        loop
            invariant_except_break
                ten.value() == 10,
                n0 == self.raw(),
                dec_digits(n0) == dec_digits(m.value()) + lsb@.reverse(),
            ensures
                dec_digits(n0) == lsb@.reverse(),
            decreases m.value(),
        {
            let q: U192 = match m.checked_div(&ten) {
                Some(q) => q,
                None => {
                    proof {
                        assert(false);
                    }
                    U192::zero()
                },
            };
            proof {
                lemma_fundamental_div_mod(m.value() as int, 10);
            }
            let prod: U192 = match q.checked_mul(&ten) {
                Some(p) => p,
                None => {
                    proof {
                        assert(false);
                    }
                    U192::zero()
                },
            };
            let rem: U192 = match m.checked_sub(&prod) {
                Some(rm) => rm,
                None => {
                    proof {
                        assert(false);
                    }
                    U192::zero()
                },
            };
            proof {
                assert(rem.value() == m.value() % 10);
                assert(rem.w1 == 0 && rem.w2 == 0 && rem.w0 < 10);
            }
            let d: u8 = 48 + (rem.w0 as u8);
            let ghost old_rev = lsb@.reverse();
            lsb.push(d);
            proof {
                assert(lsb@.reverse() =~= seq![d] + old_rev);
                if m.value() >= 10 {
                    assert(dec_digits(m.value()) == dec_digits(m.value() / 10).push(d));
                    assert(dec_digits(m.value()) + old_rev =~= dec_digits(m.value() / 10) + (seq![
                        d,
                    ] + old_rev));
                } else {
                    assert(dec_digits(m.value()) =~= seq![d]);
                    assert(dec_digits(m.value()) + old_rev =~= seq![d] + old_rev);
                }
            }
            if m.lt(&ten) {
                break;
            }
            proof {
                lemma_div_decreases(m.value() as int, 10);
            }
            m = q;
        }
        let mut digits: Vec<u8> = Vec::new();
        let mut k: usize = lsb.len();
        while k > 0
            invariant
                k <= lsb@.len(),
                digits@.len() == lsb@.len() - k,
                forall|i: int| 0 <= i < digits@.len() ==> digits@[i] == lsb@[lsb@.len() - 1 - i],
            decreases k,
        {
            k = k - 1;
            digits.push(lsb[k]);
        }
        proof {
            assert(digits@ =~= lsb@.reverse());
            assert(digits@ == dec_digits(n0));
            lemma_dec_digits_ascii(n0);
        }
        let mut out: Vec<u8> = Vec::new();
        if digits.len() <= 18 {
            out.push(48);
            out.push(46);
            let mut z: usize = digits.len();
            while z < 18
                invariant
                    digits@.len() <= z <= 18,
                    out@.len() == 2 + z - digits@.len(),
                    out@[0] == 48u8,
                    out@[1] == 46u8,
                    forall|i: int| 2 <= i < out@.len() ==> out@[i] == 48u8,
                decreases 18 - z,
            {
                out.push(48);
                z = z + 1;
            }
            let mut i: usize = 0;
            while i < digits.len()
                invariant
                    i <= digits@.len(),
                    digits@.len() <= 18,
                    out@.len() == 20 - digits@.len() + i,
                    out@[0] == 48u8,
                    out@[1] == 46u8,
                    forall|j: int| 2 <= j < 20 - digits@.len() ==> out@[j] == 48u8,
                    forall|j: int| 0 <= j < i ==> out@[20 - digits@.len() + j] == digits@[j],
                decreases digits@.len() - i,
            {
                out.push(digits[i]);
                i = i + 1;
            }
            proof {
                assert(out@ =~= spec_display_bytes(n0));
            }
        } else {
            let cut: usize = digits.len() - 18;
            let mut i: usize = 0;
            while i < cut
                invariant
                    cut == digits@.len() - 18,
                    i <= cut,
                    cut < digits@.len(),
                    out@.len() == i,
                    forall|j: int| 0 <= j < i ==> out@[j] == digits@[j],
                decreases cut - i,
            {
                out.push(digits[i]);
                i = i + 1;
            }
            out.push(46);
            let mut j: usize = cut;
            while j < digits.len()
                invariant
                    cut == digits@.len() - 18,
                    cut <= j <= digits@.len(),
                    out@.len() == j + 1,
                    out@[cut as int] == 46u8,
                    forall|t: int| 0 <= t < cut ==> out@[t] == digits@[t],
                    forall|t: int| cut <= t < j ==> out@[t + 1] == digits@[t],
                decreases digits@.len() - j,
            {
                out.push(digits[j]);
                j = j + 1;
            }
            proof {
                assert(out@ =~= spec_display_bytes(n0));
            }
        }
        proof {
            assert(forall|i: int| 0 <= i < out@.len() ==> out@[i] < 0x80);
            lemma_ascii_is_utf8(out@, 0);
        }
        let ghost out_view = out@;
        let r = string_from_utf8(out);
        proof {
            assert(r@ =~= out_view.map_values(|b: u8| b as char));
        }
        r
    }
}


/// ASCII decimal digits of `n`, most significant first, without leading
/// zeros; a single "0" for zero.
pub open spec fn dec_digits(n: nat) -> Seq<u8>
    decreases n,
{
    if n < 10 {
        seq![(48 + n) as u8]
    } else {
        dec_digits(n / 10).push((48 + n % 10) as u8)
    }
}

proof fn lemma_dec_digits_ascii(n: nat)
    ensures
        dec_digits(n).len() >= 1,
        forall|i: int| 0 <= i < dec_digits(n).len() ==> 48 <= #[trigger] dec_digits(n)[i] <= 57,
    decreases n,
{
    if n >= 10 {
        lemma_dec_digits_ascii(n / 10);
    }
}

/// The rendering of a raw scaled value: the decimal point sits 18 digits
/// from the right, and a value below one whole unit is written behind a
/// leading "0." with zero padding.
pub open spec fn spec_display_bytes(raw: nat) -> Seq<u8> {
    let s = dec_digits(raw);
    if s.len() <= 18 {
        seq![48u8, 46u8] + Seq::new((18 - s.len()) as nat, |i: int| 48u8) + s
    } else {
        s.take(s.len() - 18) + seq![46u8] + s.skip(s.len() - 18)
    }
}

/// Converting a whole number to a decimal and flooring it back returns the
/// number unchanged, for every `u64`.
pub proof fn lemma_from_floor_round_trip(v: u64)
    ensures
        (v as nat * WAD as nat) / WAD as nat == v as nat,
{
    lemma_div_multiples_vanish(v as int, WAD as int);
    lemma_mul_is_commutative(WAD as int, v as int);
}

/// Multiplying a whole number by another and dividing by the same divisor
/// floors back to the original number exactly, whenever the divisor is not
/// zero and the scaled product fits in 192 bits. The raw values below follow
/// the contracts of `from_u64`, `try_mul`, `try_div` and `try_floor_u64`.
pub proof fn lemma_mul_div_inverse(a: u64, b: u64)
    requires
        b != 0,
        (a as nat * b as nat * (WAD as nat * WAD as nat)) < pow2_192(),
    ensures
        ({
            let m = (a as nat * WAD as nat) * (b as nat * WAD as nat) / WAD as nat;
            let q = m * WAD as nat / (b as nat * WAD as nat);
            &&& ((a as nat * WAD as nat) * (b as nat * WAD as nat)) < pow2_192()
            &&& (m * WAD as nat) < pow2_192()
            &&& q / WAD as nat == a as nat
        }),
{
    let an = a as nat;
    let bn = b as nat;
    let w = WAD as nat;
    assert((an * w) * (bn * w) == (an * bn * w) * w) by (nonlinear_arith);
    assert(an * bn * (w * w) == (an * bn * w) * w) by (nonlinear_arith);
    lemma_div_multiples_vanish((an * bn * w) as int, w as int);
    lemma_mul_is_commutative(w as int, (an * bn * w) as int);
    let m = (an * w) * (bn * w) / w;
    assert(m == an * bn * w);
    assert(m * w == (an * w) * (bn * w)) by (nonlinear_arith)
        requires
            m == an * bn * w,
    ;
    assert(bn * w >= w) by (nonlinear_arith)
        requires
            bn >= 1,
    ;
    assert(m * w == (bn * w) * (an * w)) by (nonlinear_arith)
        requires
            m == an * bn * w,
    ;
    lemma_div_multiples_vanish((an * w) as int, (bn * w) as int);
    let q = m * w / (bn * w);
    assert(q == an * w);
    lemma_div_multiples_vanish(an as int, w as int);
    lemma_mul_is_commutative(w as int, an as int);
}

} // verus!
