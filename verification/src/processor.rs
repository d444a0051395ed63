use vstd::prelude::*;
use vstd::bytes::spec_u64_from_le_bytes;
use vstd::arithmetic::div_mod::{lemma_div_is_ordered, lemma_div_is_ordered_by_denominator,
    lemma_div_multiples_vanish, lemma_div_denominator, lemma_div_of0};
use vstd::arithmetic::mul::{lemma_mul_inequality, lemma_mul_is_commutative, lemma_mul_nonnegative};
use crate::decimal::{Decimal, WAD};
use crate::error::CoinbackedError;
use crate::instruction::{Instruction, frame_ok, tos_region, wire_amount};
use crate::utf8::{is_utf8, utf8_valid_up_to};
use crate::ledger::{AccountView, TokenAccountView, MintView, pda_of, find_pda,
    unpack_spl_token_account, unpack_spl_mint, spl_token_account_ok, spl_mint_ok};
use crate::state::{BackingAccount, TreasuryAccount};
use crate::u192::pow2_192;
use crate::utils::{coinbacked_seed, treasury_seed, coinbacked_seed_bytes, treasury_seed_bytes,
    system_program_id, rent_sysvar_id, token_program_id, system_program_id_bytes,
    rent_sysvar_id_bytes, token_program_id_bytes, keys_equal, CO_ACCOUNT_BACKING_BYTE_LEN,
    CO_ACCOUNT_PROTOCOL_TREASURY_BYTE_LEN, CO_OP_CREATE_BACKING_ACCOUNT,
    CO_OP_VALIDATE_BACKING_ACCOUNT, CO_OP_ADD_TO_BALANCE_OF_BACKING_ACCOUNT,
    CO_OP_BURN_AND_FREE_BALANCE, CO_OP_CLEAN_ACCOUNTS_AFTER_BURNING,
    CO_OP_ADMIN_CREATE_TREASURY_ACCOUNT, CO_OP_ADMIN_TRANSFER_FROM_TREASURY_ACCOUNT};
use crate::CO_PROTOCOL_FEE;

verus! {

/// Seeds from which a mint's backing reserve address is derived.
pub open spec fn backing_seeds(mint_key: Seq<u8>, program_id: Seq<u8>) -> Seq<Seq<u8>> {
    seq![mint_key, program_id, coinbacked_seed()]
}

/// Seeds from which the treasury address is derived.
pub open spec fn treasury_seeds(program_id: Seq<u8>) -> Seq<Seq<u8>> {
    seq![program_id, treasury_seed()]
}

/// Outcome of re-deriving and checking the backing reserve's address and
/// record, in the order the checks run.
pub open spec fn spec_check_backing(
    backing: AccountView,
    mint: AccountView,
    program_id: Seq<u8>,
    should_be_empty: bool,
) -> Result<u8, CoinbackedError> {
    match pda_of(backing_seeds(mint.key@, program_id), program_id) {
        None => Err(CoinbackedError::InvalidAccountData),
        Some((key, bump)) => if key != backing.key@ {
            Err(CoinbackedError::InvalidAccountData)
        } else if should_be_empty {
            if backing.owner@ == program_id || backing.data@.len() != 0 {
                Err(CoinbackedError::InvalidAccountData)
            } else {
                Ok(bump)
            }
        } else {
            if backing.data@.len() < CO_ACCOUNT_BACKING_BYTE_LEN {
                Err(CoinbackedError::InvalidAccountData)
            } else if backing.data@.subrange(0, 32) != mint.key@ {
                Err(CoinbackedError::InvalidAccountData)
            } else if backing.data@[40] != bump {
                Err(CoinbackedError::InvalidAccountData)
            } else {
                Ok(bump)
            }
        },
    }
}

/// Outcome of re-deriving and checking the treasury's address and, when it
/// already exists, its recorded bump seed.
pub open spec fn spec_check_treasury(treasury: AccountView, program_id: Seq<u8>) -> Result<
    u8,
    CoinbackedError,
> {
    match pda_of(treasury_seeds(program_id), program_id) {
        None => Err(CoinbackedError::InvalidAccountData),
        Some((key, bump)) => if key != treasury.key@ {
            Err(CoinbackedError::InvalidAccountData)
        } else if treasury.data@.len() != 0 && treasury.owner@ == program_id {
            if treasury.data@.len() < CO_ACCOUNT_PROTOCOL_TREASURY_BYTE_LEN {
                Err(CoinbackedError::InvalidAccountData)
            } else if treasury.data@[8] != bump {
                Err(CoinbackedError::InvalidAccountData)
            } else {
                Ok(bump)
            }
        } else {
            Ok(bump)
        },
    }
}

/// Outcome of the fee-payment checks: the treasury must be the derived
/// address and must already belong to this program.
pub open spec fn spec_pay_protocol_failure(treasury: AccountView, program_id: Seq<u8>) -> Option<
    CoinbackedError,
> {
    match spec_check_treasury(treasury, program_id) {
        Err(e) => Some(e),
        Ok(_) => if treasury.owner@ != program_id {
            Some(CoinbackedError::InvalidAccountData)
        } else {
            None
        },
    }
}

/// Re-derive the reserve address for `mint` and hold `backing` to it; with
/// `should_be_empty` the reserve must not exist yet, otherwise its stored
/// record must point back at the mint with the derived bump seed.
pub fn check_backing_account(
    backing: &AccountView,
    mint: &AccountView,
    program_id: &Vec<u8>,
    should_be_empty: bool,
) -> (r: Result<u8, CoinbackedError>)
    requires
        program_id@.len() == 32,
    ensures
        r == spec_check_backing(*backing, *mint, program_id@, should_be_empty),
{
    let mut seeds: Vec<Vec<u8>> = Vec::new();
    seeds.push(mint.key.clone());
    seeds.push(program_id.clone());
    seeds.push(coinbacked_seed_bytes());
    proof {
        assert(seeds@.map_values(|s: Vec<u8>| s@) =~= backing_seeds(mint.key@, program_id@));
    }
    match find_pda(&seeds, program_id) {
        None => Err(CoinbackedError::InvalidAccountData),
        Some((key, bump)) => {
            if !keys_equal(&key, &backing.key) {
                return Err(CoinbackedError::InvalidAccountData);
            }
            if should_be_empty {
                if keys_equal(&backing.owner, program_id) || backing.data.len() != 0 {
                    return Err(CoinbackedError::InvalidAccountData);
                }
                Ok(bump)
            } else {
                let record = match BackingAccount::unpack(backing.data.as_slice()) {
                    Ok(b) => b,
                    Err(e) => {
                        return Err(e);
                    },
                };
                if !keys_equal(&record.token_key, &mint.key) {
                    return Err(CoinbackedError::InvalidAccountData);
                }
                if record.bump != bump {
                    return Err(CoinbackedError::InvalidAccountData);
                }
                Ok(bump)
            }
        },
    }
}

/// Re-derive the treasury address and hold `treasury` to it; when the
/// treasury exists already, its recorded bump seed must match.
pub fn check_protocol_treasury_account(treasury: &AccountView, program_id: &Vec<u8>) -> (r: Result<
    u8,
    CoinbackedError,
>)
    requires
        program_id@.len() == 32,
    ensures
        r == spec_check_treasury(*treasury, program_id@),
{
    let mut seeds: Vec<Vec<u8>> = Vec::new();
    seeds.push(program_id.clone());
    seeds.push(treasury_seed_bytes());
    proof {
        assert(seeds@.map_values(|s: Vec<u8>| s@) =~= treasury_seeds(program_id@));
    }
    match find_pda(&seeds, program_id) {
        None => Err(CoinbackedError::InvalidAccountData),
        Some((key, bump)) => {
            if !keys_equal(&key, &treasury.key) {
                return Err(CoinbackedError::InvalidAccountData);
            }
            if treasury.data.len() != 0 && keys_equal(&treasury.owner, program_id) {
                let record = match TreasuryAccount::unpack(treasury.data.as_slice()) {
                    Ok(t) => t,
                    Err(e) => {
                        return Err(e);
                    },
                };
                if record.bump != bump {
                    return Err(CoinbackedError::InvalidAccountData);
                }
                Ok(bump)
            } else {
                Ok(bump)
            }
        },
    }
}

/// The proportional payout: `units * (balance - excemption) / supply`,
/// rounded down.
pub open spec fn spec_payout(units: int, supply: int, balance: int, excemption: int) -> int {
    units * (balance - excemption) / supply
}

/// Whether the payout computation succeeds on these inputs: the reserve
/// holds its floor, the scaled product fits in 192 bits, the supply is not
/// zero and the result fits in a u64.
pub open spec fn spec_payout_defined(units: int, supply: int, balance: int, excemption: int) -> bool {
    &&& excemption <= balance
    &&& (units * (balance - excemption) * (WAD as int * WAD as int)) < pow2_192()
    &&& supply >= 1
    &&& spec_payout(units, supply, balance, excemption) < 0x1_0000_0000_0000_0000
}

/// Compute the payout in lamports for burning (or pricing) `token_amount`
/// units against a reserve, entirely in 192-bit fixed point: multiply
/// before dividing so no precision is lost before the final floor.
#[verifier::rlimit(60)]
pub fn get_payout_in_lamport(
    token_amount: u64,
    supply: u64,
    backing_lamports: u64,
    backing_rent_excemption: u64,
) -> (r: Result<u64, CoinbackedError>)
    ensures
        match r {
            Ok(p) => spec_payout_defined(
                token_amount as int,
                supply as int,
                backing_lamports as int,
                backing_rent_excemption as int,
            ) && p == spec_payout(
                token_amount as int,
                supply as int,
                backing_lamports as int,
                backing_rent_excemption as int,
            ),
            Err(e) => e == CoinbackedError::MathError && !spec_payout_defined(
                token_amount as int,
                supply as int,
                backing_lamports as int,
                backing_rent_excemption as int,
            ),
        },
{
    let ghost t = token_amount as int;
    let ghost s = supply as int;
    let ghost b = backing_lamports as int;
    let ghost e = backing_rent_excemption as int;
    let ghost w = WAD as int;
    let d_t = Decimal::from_u64(token_amount);
    let d_b = Decimal::from_u64(backing_lamports);
    let d_e = Decimal::from_u64(backing_rent_excemption);
    let d_s = Decimal::from_u64(supply);
    proof {
        assert((e <= b) == (e * w <= b * w)) by (nonlinear_arith)
            requires
                w >= 1,
        ;
    }
    let diff = match d_b.try_sub(d_e) {
        Ok(d) => d,
        Err(err) => {
            return Err(CoinbackedError::MathError);
        },
    };
    proof {
        assert(b * w - e * w == (b - e) * w) by (nonlinear_arith);
        assert((t * w) * ((b - e) * w) == (t * (b - e)) * (w * w)) by (nonlinear_arith);
        assert((t * w) * ((b - e) * w) == (t * (b - e) * w) * w) by (nonlinear_arith);
    }
    let prod = match d_t.try_mul(diff) {
        Ok(p) => p,
        Err(err) => {
            proof {
                assert(t * (b - e) * (w * w) == (t * w) * ((b - e) * w)) by (nonlinear_arith);
            }
            return Err(CoinbackedError::MathError);
        },
    };
    proof {
        lemma_mul_nonnegative(t, b - e);
        lemma_mul_nonnegative(t * (b - e), w);
        lemma_div_multiples_vanish(t * (b - e) * w, w);
        lemma_mul_is_commutative(w, t * (b - e) * w);
        assert(prod.raw() == t * (b - e) * w);
        assert((t * (b - e) * w) * w == t * (b - e) * (w * w)) by (nonlinear_arith);
    }
    let quot = match prod.try_div(d_s) {
        Ok(q) => q,
        Err(err) => {
            proof {
                assert(s == 0 ==> s * w == 0);
                assert(s >= 1 ==> (d_s.raw() != 0)) by (nonlinear_arith)
                    requires
                        d_s.raw() == s * w,
                        w >= 1,
                ;
            }
            return Err(CoinbackedError::MathError);
        },
    };
    proof {
        assert(s >= 1);
        let x = t * (b - e);
        assert(quot.raw() == (x * w) * w / (s * w));
        assert((x * w) * w == (x * w * w));
        lemma_mul_is_commutative(s, w);
        lemma_div_denominator(x * w * w, w, s);
        assert((x * w * w) / w == x * w) by {
            lemma_mul_nonnegative(x * w, w);
            lemma_div_multiples_vanish(x * w, w);
            lemma_mul_is_commutative(w, x * w);
            assert(x * w * w == w * (x * w)) by (nonlinear_arith);
        }
        assert(quot.raw() == (x * w) / s);
    }
    let result = match quot.try_floor_u64() {
        Ok(p) => p,
        Err(err) => {
            proof {
                lemma_floor_cancels(t * (b - e), s, w);
            }
            return Err(CoinbackedError::MathError);
        },
    };
    proof {
        lemma_floor_cancels(t * (b - e), s, w);
    }
    Ok(result)
}

/// Dividing `x * w` by `s` and then by `w` equals dividing `x` by `s`.
proof fn lemma_floor_cancels(x: int, s: int, w: int)
    requires
        0 <= x,
        1 <= s,
        1 <= w,
    ensures
        ((x * w) / s) / w == x / s,
{
    lemma_mul_nonnegative(x, w);
    lemma_div_denominator(x * w, s, w);
    lemma_mul_is_commutative(s, w);
    lemma_div_denominator(x * w, w, s);
    lemma_div_multiples_vanish(x, w);
    lemma_mul_is_commutative(w, x);
    assert((x * w) / (s * w) == ((x * w) / w) / s);
    assert(((x * w) / s) / w == (x * w) / (s * w));
}

/// The payout is non-decreasing in the number of units burned, for a fixed
/// supply, balance and floor.
pub proof fn lemma_payout_monotone_in_units(u1: int, u2: int, s: int, b: int, e: int)
    requires
        0 <= u1 <= u2,
        1 <= s,
        0 <= e <= b,
    ensures
        spec_payout(u1, s, b, e) <= spec_payout(u2, s, b, e),
{
    lemma_mul_inequality(u1, u2, b - e);
    lemma_div_is_ordered(u1 * (b - e), u2 * (b - e), s);
}

/// The payout is non-increasing in the total supply, for a fixed number of
/// units, balance and floor.
pub proof fn lemma_payout_antitone_in_supply(u: int, s1: int, s2: int, b: int, e: int)
    requires
        0 <= u,
        1 <= s1 <= s2,
        0 <= e <= b,
    ensures
        spec_payout(u, s2, b, e) <= spec_payout(u, s1, b, e),
{
    lemma_mul_nonnegative(u, b - e);
    lemma_div_is_ordered_by_denominator(u * (b - e), s1, s2);
}

/// When the reserve balance sits exactly at its recorded floor, the payout
/// is zero whatever the units and supply.
pub proof fn lemma_payout_zero_at_floor(u: int, s: int, b: int)
    requires
        0 <= u,
        1 <= s,
    ensures
        spec_payout(u, s, b, b) == 0,
{
    assert(u * (b - b) == 0) by (nonlinear_arith);
    lemma_div_of0(s);
}

/// The number of base token units making up one whole token with the given
/// number of decimals: ten to that power.
pub open spec fn pow10(d: nat) -> nat
    decreases d,
{
    if d == 0 {
        1
    } else {
        10 * pow10((d - 1) as nat)
    }
}

proof fn lemma_pow10_monotone(i: nat, j: nat)
    requires
        i <= j,
    ensures
        pow10(i) <= pow10(j),
    decreases j,
{
    if i < j {
        lemma_pow10_monotone(i, (j - 1) as nat);
        assert(pow10(j) == 10 * pow10((j - 1) as nat));
        assert(pow10((j - 1) as nat) <= 10 * pow10((j - 1) as nat)) by (nonlinear_arith)
            requires
                pow10((j - 1) as nat) >= 0,
        ;
    }
}

/// Token units of one whole token: ten to the power of `decimals`.
pub fn token_amount_one_unit(decimals: u8) -> (r: u64)
    requires
        decimals <= 19,
    ensures
        r == pow10(decimals as nat),
{
    let mut acc: u64 = 1;
    let mut i: u8 = 0;
    while i < decimals
        invariant
            i <= decimals,
            decimals <= 19,
            acc == pow10(i as nat),
        decreases decimals - i,
    {
        proof {
            lemma_pow10_monotone(i as nat + 1, 19);
            reveal_with_fuel(pow10, 21);
            assert(pow10(19) == 10_000_000_000_000_000_000);
        }
        acc = acc * 10;
        i = i + 1;
    }
    acc
}


/// What creating a backing reserve asks the platform to do.
pub struct CreateBackingEffects {
    /// Bump seed of the derived reserve address.
    pub bump: u8,
    /// Balance floor recorded in the new reserve record.
    pub rent_excemption: u64,
    /// Lamports the new reserve is funded with: the floor plus the caller's
    /// contribution.
    pub backing_lamports: u64,
    /// The record to write into the reserve's data.
    pub record: BackingAccount,
    /// Protocol fee to transfer from the caller to the treasury.
    pub fee: u64,
}

/// First failing check of CreateBackingAccount, or `None` when all pass.
pub open spec fn spec_create_failure(
    program_id: Seq<u8>,
    source: AccountView,
    mint: AccountView,
    token: AccountView,
    backing: AccountView,
    treasury: AccountView,
    system_program: AccountView,
    rent_sysvar: AccountView,
    lamports: u64,
    rent_min_balance: u64,
) -> Option<CoinbackedError> {
    if !source.is_signer {
        Some(CoinbackedError::MissingRequiredSignature)
    } else if !backing.is_writable || !treasury.is_writable {
        Some(CoinbackedError::InvalidAccountData)
    } else if system_program.key@ != system_program_id() || rent_sysvar.key@ != rent_sysvar_id() {
        Some(CoinbackedError::IncorrectProgramId)
    } else if !spl_token_account_ok(token.data@) {
        Some(CoinbackedError::InvalidAccountData)
    } else if token.data@.subrange(0, 32) != mint.key@ {
        Some(CoinbackedError::InvalidInstructionData)
    } else if token.data@.subrange(32, 64) != source.key@ {
        Some(CoinbackedError::InvalidInstructionData)
    } else if spec_u64_from_le_bytes(token.data@.subrange(64, 72)) == 0 {
        Some(CoinbackedError::InvalidInstructionData)
    } else {
        match spec_check_backing(backing, mint, program_id, true) {
            Err(e) => Some(e),
            Ok(_) => {
                let floor = if rent_min_balance < 1 { 1u64 } else { rent_min_balance };
                if floor + lamports > u64::MAX {
                    Some(CoinbackedError::MathError)
                } else {
                    spec_pay_protocol_failure(treasury, program_id)
                }
            },
        }
    }
}

/// Create and fund the backing reserve for `mint`, paid by `source`.
pub fn process_create_backing_account(
    program_id: &Vec<u8>,
    source: &AccountView,
    mint: &AccountView,
    token: &AccountView,
    backing: &AccountView,
    treasury: &AccountView,
    system_program: &AccountView,
    rent_sysvar: &AccountView,
    lamports: u64,
    rent_min_balance: u64,
) -> (r: Result<CreateBackingEffects, CoinbackedError>)
    requires
        program_id@.len() == 32,
    ensures
        match r {
            Ok(eff) => {
                &&& spec_create_failure(
                    program_id@, *source, *mint, *token, *backing, *treasury, *system_program,
                    *rent_sysvar, lamports, rent_min_balance,
                ) is None
                &&& spec_check_backing(*backing, *mint, program_id@, true) == Ok::<
                    u8,
                    CoinbackedError,
                >(eff.bump)
                &&& eff.rent_excemption == (if rent_min_balance < 1 { 1u64 } else {
                    rent_min_balance
                })
                &&& eff.backing_lamports == eff.rent_excemption + lamports
                &&& eff.record.token_key@ == mint.key@
                &&& eff.record.rent_excemption == eff.rent_excemption
                &&& eff.record.bump == eff.bump
                &&& eff.fee == CO_PROTOCOL_FEE
            },
            Err(e) => spec_create_failure(
                program_id@, *source, *mint, *token, *backing, *treasury, *system_program,
                *rent_sysvar, lamports, rent_min_balance,
            ) == Some(e),
        },
{
    if !source.is_signer {
        return Err(CoinbackedError::MissingRequiredSignature);
    }
    if !backing.is_writable || !treasury.is_writable {
        return Err(CoinbackedError::InvalidAccountData);
    }
    if !keys_equal(&system_program.key, &system_program_id_bytes()) || !keys_equal(
        &rent_sysvar.key,
        &rent_sysvar_id_bytes(),
    ) {
        return Err(CoinbackedError::IncorrectProgramId);
    }
    let token_view = match unpack_spl_token_account(&token.data) {
        Some(t) => t,
        None => {
            return Err(CoinbackedError::InvalidAccountData);
        },
    };
    if !keys_equal(&token_view.mint, &mint.key) {
        return Err(CoinbackedError::InvalidInstructionData);
    }
    if !keys_equal(&token_view.owner, &source.key) {
        return Err(CoinbackedError::InvalidInstructionData);
    }
    if token_view.amount == 0 {
        return Err(CoinbackedError::InvalidInstructionData);
    }
    let bump = match check_backing_account(backing, mint, program_id, true) {
        Ok(b) => b,
        Err(e) => {
            return Err(e);
        },
    };
    let rent_excemption: u64 = if rent_min_balance < 1 { 1 } else { rent_min_balance };
    if lamports > u64::MAX - rent_excemption {
        return Err(CoinbackedError::MathError);
    }
    let backing_lamports: u64 = rent_excemption + lamports;
    match check_protocol_treasury_account(treasury, program_id) {
        Ok(_) => (),
        Err(e) => {
            return Err(e);
        },
    }
    if !keys_equal(&treasury.owner, program_id) {
        return Err(CoinbackedError::InvalidAccountData);
    }
    let record = BackingAccount { token_key: mint.key.clone(), rent_excemption, bump };
    Ok(CreateBackingEffects { bump, rent_excemption, backing_lamports, record, fee: CO_PROTOCOL_FEE })
}

/// Advisory report of ValidateBackingAccount; every check is reported, none
/// aborts the call.
pub struct ValidationReport {
    /// The reserve sits at the address derived for the mint.
    pub pda_ok: bool,
    /// The reserve's record points back at the mint.
    pub mint_match: bool,
    /// The reserve still holds at least its recorded floor.
    pub rent_ok: bool,
    /// The recorded bump seed matches the derived one.
    pub bump_ok: bool,
    /// Conjunction of the four checks above.
    pub validation_ok: bool,
    /// Current payout for one whole token unit, in lamports.
    pub per_unit_payout: u64,
    /// Whether the supply is fixed: no authority may mint further tokens.
    pub fixed_supply: bool,
    /// Protocol fee to transfer from the payer to the treasury.
    pub fee: u64,
}

/// First hard failure of ValidateBackingAccount, or `None`: only a
/// mis-derived address, a malformed reserve or mint buffer, or a failed
/// treasury check aborts validation; every semantic mismatch is advisory.
pub open spec fn spec_validate_failure(
    program_id: Seq<u8>,
    payer: AccountView,
    mint: AccountView,
    backing: AccountView,
    treasury: AccountView,
) -> Option<CoinbackedError> {
    match pda_of(backing_seeds(mint.key@, program_id), program_id) {
        None => Some(CoinbackedError::InvalidAccountData),
        Some(_) => if backing.data@.len() < CO_ACCOUNT_BACKING_BYTE_LEN {
            Some(CoinbackedError::InvalidAccountData)
        } else if !spl_mint_ok(mint.data@) {
            Some(CoinbackedError::InvalidAccountData)
        } else {
            spec_pay_protocol_failure(treasury, program_id)
        },
    }
}

/// The advisory rate that validation reports: the payout for one whole
/// token unit, or zero when that rate cannot be computed (the reserve sits
/// below its recorded floor, the supply is zero, or a width limit is
/// exceeded).
pub open spec fn spec_validate_rate(decimals: u8, supply: int, balance: int, excemption: int) -> int {
    if decimals <= 19 && spec_payout_defined(
        pow10(decimals as nat) as int,
        supply,
        balance,
        excemption,
    ) {
        spec_payout(pow10(decimals as nat) as int, supply, balance, excemption)
    } else {
        0
    }
}

/// Diagnostic pass over an existing reserve: re-derive and compare its
/// address and record, compute the current per-unit payout, and report
/// whether the supply is fixed. Mismatches are reported, not fatal.
pub fn process_validate_backing_account(
    program_id: &Vec<u8>,
    payer: &AccountView,
    mint: &AccountView,
    backing: &AccountView,
    treasury: &AccountView,
) -> (r: Result<ValidationReport, CoinbackedError>)
    requires
        program_id@.len() == 32,
    ensures
        match r {
            Ok(rep) => {
                &&& spec_validate_failure(program_id@, *payer, *mint, *backing, *treasury) is None
                &&& (pda_of(backing_seeds(mint.key@, program_id@), program_id@) matches Some(kb)
                    && rep.pda_ok == (kb.0 == backing.key@) && rep.bump_ok == (backing.data@[40]
                    == kb.1))
                &&& rep.mint_match == (backing.data@.subrange(0, 32) == mint.key@)
                &&& rep.rent_ok == (spec_u64_from_le_bytes(backing.data@.subrange(32, 40))
                    <= backing.lamports)
                &&& rep.validation_ok == (rep.pda_ok && rep.mint_match && rep.rent_ok
                    && rep.bump_ok)
                &&& rep.per_unit_payout == spec_validate_rate(
                    mint.data@[44],
                    spec_u64_from_le_bytes(mint.data@.subrange(36, 44)) as int,
                    backing.lamports as int,
                    spec_u64_from_le_bytes(backing.data@.subrange(32, 40)) as int,
                )
                &&& rep.fixed_supply == (mint.data@[0] != 1)
                &&& rep.fee == CO_PROTOCOL_FEE
            },
            Err(e) => spec_validate_failure(program_id@, *payer, *mint, *backing, *treasury)
                == Some(e),
        },
{
    let mut seeds: Vec<Vec<u8>> = Vec::new();
    seeds.push(mint.key.clone());
    seeds.push(program_id.clone());
    seeds.push(coinbacked_seed_bytes());
    proof {
        assert(seeds@.map_values(|s: Vec<u8>| s@) =~= backing_seeds(mint.key@, program_id@));
    }
    let (pda_key, bump) = match find_pda(&seeds, program_id) {
        Some(kb) => kb,
        None => {
            return Err(CoinbackedError::InvalidAccountData);
        },
    };
    let pda_ok: bool = keys_equal(&pda_key, &backing.key);
    let record = match BackingAccount::unpack(backing.data.as_slice()) {
        Ok(b) => b,
        Err(e) => {
            return Err(e);
        },
    };
    let mint_view = match unpack_spl_mint(&mint.data) {
        Some(m) => m,
        None => {
            return Err(CoinbackedError::InvalidAccountData);
        },
    };
    let mint_match: bool = keys_equal(&record.token_key, &mint.key);
    let rent_ok: bool = record.rent_excemption <= backing.lamports;
    let bump_ok: bool = record.bump == bump;
    let per_unit_payout: u64 = if mint_view.decimals > 19 {
        0
    } else {
        let unit: u64 = token_amount_one_unit(mint_view.decimals);
        match get_payout_in_lamport(unit, mint_view.supply, backing.lamports, record.rent_excemption) {
            Ok(p) => p,
            Err(_) => 0,
        }
    };
    let fixed_supply: bool = !mint_view.has_mint_authority;
    match check_protocol_treasury_account(treasury, program_id) {
        Ok(_) => (),
        Err(e) => {
            return Err(e);
        },
    }
    if !keys_equal(&treasury.owner, program_id) {
        return Err(CoinbackedError::InvalidAccountData);
    }
    let validation_ok: bool = pda_ok && mint_match && rent_ok && bump_ok;
    Ok(
        ValidationReport {
            pda_ok,
            mint_match,
            rent_ok,
            bump_ok,
            validation_ok,
            per_unit_payout,
            fixed_supply,
            fee: CO_PROTOCOL_FEE,
        },
    )
}

/// What topping up a reserve asks the platform to do.
pub struct AddToBalanceEffects {
    /// Lamports to transfer from the caller into the reserve.
    pub lamports: u64,
    /// Protocol fee to transfer from the caller to the treasury.
    pub fee: u64,
}

/// First failing check of AddToBalanceOfBackingAccount, or `None`.
pub open spec fn spec_add_failure(
    program_id: Seq<u8>,
    source: AccountView,
    mint: AccountView,
    backing: AccountView,
    treasury: AccountView,
) -> Option<CoinbackedError> {
    if !source.is_signer {
        Some(CoinbackedError::MissingRequiredSignature)
    } else if !backing.is_writable || !treasury.is_writable {
        Some(CoinbackedError::InvalidAccountData)
    } else {
        match spec_check_backing(backing, mint, program_id, false) {
            Err(e) => Some(e),
            Ok(_) => if !spl_mint_ok(mint.data@) {
                Some(CoinbackedError::InvalidAccountData)
            } else if spec_u64_from_le_bytes(mint.data@.subrange(36, 44)) == 0 {
                Some(CoinbackedError::InvalidAccountData)
            } else {
                spec_pay_protocol_failure(treasury, program_id)
            },
        }
    }
}

/// Add `lamports` from `source` to an existing reserve; refused when the
/// mint's supply is zero, since nothing could ever redeem the addition.
pub fn process_add_to_balance_of_backing_account(
    program_id: &Vec<u8>,
    source: &AccountView,
    mint: &AccountView,
    backing: &AccountView,
    treasury: &AccountView,
    lamports: u64,
) -> (r: Result<AddToBalanceEffects, CoinbackedError>)
    requires
        program_id@.len() == 32,
    ensures
        match r {
            Ok(eff) => spec_add_failure(program_id@, *source, *mint, *backing, *treasury) is None
                && eff.lamports == lamports && eff.fee == CO_PROTOCOL_FEE,
            Err(e) => spec_add_failure(program_id@, *source, *mint, *backing, *treasury) == Some(
                e,
            ),
        },
{
    if !source.is_signer {
        return Err(CoinbackedError::MissingRequiredSignature);
    }
    if !backing.is_writable || !treasury.is_writable {
        return Err(CoinbackedError::InvalidAccountData);
    }
    match check_backing_account(backing, mint, program_id, false) {
        Ok(_) => (),
        Err(e) => {
            return Err(e);
        },
    }
    let mint_view = match unpack_spl_mint(&mint.data) {
        Some(m) => m,
        None => {
            return Err(CoinbackedError::InvalidAccountData);
        },
    };
    if mint_view.supply == 0 {
        return Err(CoinbackedError::InvalidAccountData);
    }
    match check_protocol_treasury_account(treasury, program_id) {
        Ok(_) => (),
        Err(e) => {
            return Err(e);
        },
    }
    if !keys_equal(&treasury.owner, program_id) {
        return Err(CoinbackedError::InvalidAccountData);
    }
    Ok(AddToBalanceEffects { lamports, fee: CO_PROTOCOL_FEE })
}


/// Balance moves that burning and redeeming asks the platform to do.
pub struct BurnEffects {
    /// Tokens to burn from the caller's holding account.
    pub burn_amount: u64,
    /// Lamports paid out of the reserve.
    pub payout: u64,
    /// Reserve balance after the payout.
    pub backing_lamports_after: u64,
    /// Caller balance after receiving the payout and paying the fee.
    pub owner_lamports_after: u64,
    /// Treasury balance after receiving the fee.
    pub treasury_lamports_after: u64,
}

/// First failing check of BurnTokenAndFreeBalanace, or `None`.
pub open spec fn spec_burn_failure(
    program_id: Seq<u8>,
    owner: AccountView,
    mint: AccountView,
    token: AccountView,
    backing: AccountView,
    treasury: AccountView,
    token_program: AccountView,
    amount: u64,
) -> Option<CoinbackedError> {
    if !owner.is_signer {
        Some(CoinbackedError::MissingRequiredSignature)
    } else if token_program.key@ != token_program_id() {
        Some(CoinbackedError::IncorrectProgramId)
    } else if !backing.is_writable || !treasury.is_writable || !token.is_writable
        || !owner.is_writable {
        Some(CoinbackedError::InvalidAccountData)
    } else if !spl_token_account_ok(token.data@) {
        Some(CoinbackedError::InvalidAccountData)
    } else if !spl_mint_ok(mint.data@) {
        Some(CoinbackedError::InvalidAccountData)
    } else if token.data@.subrange(0, 32) != mint.key@ {
        Some(CoinbackedError::InvalidAccountData)
    } else if token.data@.subrange(32, 64) != owner.key@ {
        Some(CoinbackedError::InvalidInstructionData)
    } else {
        match spec_check_backing(backing, mint, program_id, false) {
            Err(e) => Some(e),
            Ok(_) => {
                let supply = spec_u64_from_le_bytes(mint.data@.subrange(36, 44)) as int;
                let rent = spec_u64_from_le_bytes(backing.data@.subrange(32, 40)) as int;
                if !spec_payout_defined(amount as int, supply, backing.lamports as int, rent) {
                    Some(CoinbackedError::MathError)
                } else {
                    let payout = spec_payout(amount as int, supply, backing.lamports as int, rent);
                    if backing.lamports < payout {
                        Some(CoinbackedError::InvalidAccountData)
                    } else if owner.lamports + payout > u64::MAX {
                        Some(CoinbackedError::InvalidAccountData)
                    } else {
                        match spec_pay_protocol_failure(treasury, program_id) {
                            Some(e) => Some(e),
                            None => if owner.lamports + payout < CO_PROTOCOL_FEE {
                                Some(CoinbackedError::InvalidAccountData)
                            } else if treasury.lamports + CO_PROTOCOL_FEE > u64::MAX {
                                Some(CoinbackedError::InvalidAccountData)
                            } else {
                                None
                            },
                        }
                    }
                }
            },
        }
    }
}

/// Burn `amount` tokens from the caller's holding and pay out the
/// proportional share of the reserve, computed from the pre-burn supply
/// and balance; the protocol fee is debited directly from the caller.
pub fn process_burn_token_and_free_balanace(
    program_id: &Vec<u8>,
    owner: &AccountView,
    mint: &AccountView,
    token: &AccountView,
    backing: &AccountView,
    treasury: &AccountView,
    token_program: &AccountView,
    amount: u64,
) -> (r: Result<BurnEffects, CoinbackedError>)
    requires
        program_id@.len() == 32,
    ensures
        match r {
            Ok(eff) => {
                &&& spec_burn_failure(
                    program_id@, *owner, *mint, *token, *backing, *treasury, *token_program,
                    amount,
                ) is None
                &&& eff.burn_amount == amount
                &&& eff.payout == spec_payout(
                    amount as int,
                    spec_u64_from_le_bytes(mint.data@.subrange(36, 44)) as int,
                    backing.lamports as int,
                    spec_u64_from_le_bytes(backing.data@.subrange(32, 40)) as int,
                )
                &&& eff.backing_lamports_after == backing.lamports - eff.payout
                &&& eff.owner_lamports_after == owner.lamports + eff.payout - CO_PROTOCOL_FEE
                &&& eff.treasury_lamports_after == treasury.lamports + CO_PROTOCOL_FEE
            },
            Err(e) => spec_burn_failure(
                program_id@, *owner, *mint, *token, *backing, *treasury, *token_program, amount,
            ) == Some(e),
        },
{
    if !owner.is_signer {
        return Err(CoinbackedError::MissingRequiredSignature);
    }
    if !keys_equal(&token_program.key, &token_program_id_bytes()) {
        return Err(CoinbackedError::IncorrectProgramId);
    }
    if !backing.is_writable || !treasury.is_writable || !token.is_writable || !owner.is_writable {
        return Err(CoinbackedError::InvalidAccountData);
    }
    let token_view = match unpack_spl_token_account(&token.data) {
        Some(t) => t,
        None => {
            return Err(CoinbackedError::InvalidAccountData);
        },
    };
    let mint_view = match unpack_spl_mint(&mint.data) {
        Some(m) => m,
        None => {
            return Err(CoinbackedError::InvalidAccountData);
        },
    };
    if !keys_equal(&token_view.mint, &mint.key) {
        return Err(CoinbackedError::InvalidAccountData);
    }
    if !keys_equal(&token_view.owner, &owner.key) {
        return Err(CoinbackedError::InvalidInstructionData);
    }
    match check_backing_account(backing, mint, program_id, false) {
        Ok(_) => (),
        Err(e) => {
            return Err(e);
        },
    }
    let record = match BackingAccount::unpack(backing.data.as_slice()) {
        Ok(b) => b,
        Err(e) => {
            return Err(e);
        },
    };
    let payout: u64 = match get_payout_in_lamport(
        amount,
        mint_view.supply,
        backing.lamports,
        record.rent_excemption,
    ) {
        Ok(p) => p,
        Err(e) => {
            return Err(e);
        },
    };
    if backing.lamports < payout {
        return Err(CoinbackedError::InvalidAccountData);
    }
    let backing_lamports_after: u64 = backing.lamports - payout;
    if owner.lamports > u64::MAX - payout {
        return Err(CoinbackedError::InvalidAccountData);
    }
    let owner_plus: u64 = owner.lamports + payout;
    match check_protocol_treasury_account(treasury, program_id) {
        Ok(_) => (),
        Err(e) => {
            return Err(e);
        },
    }
    if !keys_equal(&treasury.owner, program_id) {
        return Err(CoinbackedError::InvalidAccountData);
    }
    if owner_plus < CO_PROTOCOL_FEE {
        return Err(CoinbackedError::InvalidAccountData);
    }
    let owner_lamports_after: u64 = owner_plus - CO_PROTOCOL_FEE;
    if treasury.lamports > u64::MAX - CO_PROTOCOL_FEE {
        return Err(CoinbackedError::InvalidAccountData);
    }
    let treasury_lamports_after: u64 = treasury.lamports + CO_PROTOCOL_FEE;
    Ok(
        BurnEffects {
            burn_amount: amount,
            payout,
            backing_lamports_after,
            owner_lamports_after,
            treasury_lamports_after,
        },
    )
}

/// Cleanup actions after burning; the two sub-actions fire independently.
pub struct CleanEffects {
    /// Close the caller's now-empty token-holding account.
    pub close_token_account: bool,
    /// Sweep the emptied reserve: zero its balance and data and release it
    /// to system ownership.
    pub sweep_backing: bool,
    /// Treasury balance after the sweep (unchanged when no sweep fires).
    pub treasury_lamports_after: u64,
}

/// First failing check of CleanAccountsAfterBurning, or `None`.
pub open spec fn spec_clean_failure(
    owner: AccountView,
    token: AccountView,
    backing: AccountView,
    treasury: AccountView,
) -> Option<CoinbackedError> {
    if !owner.is_signer {
        Some(CoinbackedError::MissingRequiredSignature)
    } else if !spl_token_account_ok(token.data@) {
        Some(CoinbackedError::InvalidAccountData)
    } else if backing.data@.len() < CO_ACCOUNT_BACKING_BYTE_LEN {
        Some(CoinbackedError::InvalidAccountData)
    } else if backing.lamports <= spec_u64_from_le_bytes(backing.data@.subrange(32, 40))
        && treasury.lamports + backing.lamports > u64::MAX {
        Some(CoinbackedError::InvalidInstructionData)
    } else {
        None
    }
}

/// Close the caller's emptied token account, and sweep the reserve to the
/// treasury once its balance has fallen to or below its recorded floor.
pub fn process_clean_accounts_after_burning(
    owner: &AccountView,
    token: &AccountView,
    backing: &AccountView,
    treasury: &AccountView,
) -> (r: Result<CleanEffects, CoinbackedError>)
    ensures
        match r {
            Ok(eff) => {
                &&& spec_clean_failure(*owner, *token, *backing, *treasury) is None
                &&& eff.close_token_account == (spec_u64_from_le_bytes(
                    token.data@.subrange(64, 72),
                ) == 0)
                &&& eff.sweep_backing == (backing.lamports <= spec_u64_from_le_bytes(
                    backing.data@.subrange(32, 40),
                ))
                &&& eff.treasury_lamports_after == (if eff.sweep_backing {
                    treasury.lamports + backing.lamports
                } else {
                    treasury.lamports as int
                })
            },
            Err(e) => spec_clean_failure(*owner, *token, *backing, *treasury) == Some(e),
        },
{
    if !owner.is_signer {
        return Err(CoinbackedError::MissingRequiredSignature);
    }
    let token_view = match unpack_spl_token_account(&token.data) {
        Some(t) => t,
        None => {
            return Err(CoinbackedError::InvalidAccountData);
        },
    };
    let record = match BackingAccount::unpack(backing.data.as_slice()) {
        Ok(b) => b,
        Err(e) => {
            return Err(e);
        },
    };
    let close_token_account: bool = token_view.amount == 0;
    let sweep_backing: bool = backing.lamports <= record.rent_excemption;
    let treasury_lamports_after: u64 = if sweep_backing {
        if treasury.lamports > u64::MAX - backing.lamports {
            return Err(CoinbackedError::InvalidInstructionData);
        }
        treasury.lamports + backing.lamports
    } else {
        treasury.lamports
    };
    Ok(CleanEffects { close_token_account, sweep_backing, treasury_lamports_after })
}

/// First failure of the admin authority checks shared by the two admin
/// operations, or `None`: the program account must be this program, the
/// metadata account must be the one recorded in it, and the caller must be
/// the update authority recorded in the metadata.
pub open spec fn spec_admin_auth_failure(
    program_id: Seq<u8>,
    owner: AccountView,
    program_account: AccountView,
    program_data: AccountView,
) -> Option<CoinbackedError> {
    if program_account.key@ != program_id {
        Some(CoinbackedError::InvalidAccountData)
    } else if program_account.data@.len() < 36 {
        Some(CoinbackedError::InvalidAccountData)
    } else if program_data.key@ != program_account.data@.subrange(4, 36) {
        Some(CoinbackedError::InvalidAccountData)
    } else if program_data.data@.len() < 45 {
        Some(CoinbackedError::InvalidAccountData)
    } else if owner.key@ != program_data.data@.subrange(13, 45) {
        Some(CoinbackedError::InvalidAccountData)
    } else {
        None
    }
}

/// The address, recorded at a fixed offset inside a program account, of
/// that program's executable-data account.
pub fn get_program_executable_data_account_key(program_account: &AccountView) -> (r: Result<
    Vec<u8>,
    CoinbackedError,
>)
    ensures
        match r {
            Ok(k) => program_account.data@.len() >= 36 && k@ == program_account.data@.subrange(
                4,
                36,
            ),
            Err(e) => e == CoinbackedError::InvalidAccountData && program_account.data@.len() < 36,
        },
{
    if program_account.data.len() < 36 {
        return Err(CoinbackedError::InvalidAccountData);
    }
    Ok(vstd::slice::slice_to_vec(vstd::slice::slice_subrange(program_account.data.as_slice(), 4, 36)))
}

/// The update-authority key, recorded at a fixed offset inside a program's
/// executable-data account.
pub fn get_update_authority(program_data: &AccountView) -> (r: Result<Vec<u8>, CoinbackedError>)
    ensures
        match r {
            Ok(k) => program_data.data@.len() >= 45 && k@ == program_data.data@.subrange(13, 45),
            Err(e) => e == CoinbackedError::InvalidAccountData && program_data.data@.len() < 45,
        },
{
    if program_data.data.len() < 45 {
        return Err(CoinbackedError::InvalidAccountData);
    }
    Ok(vstd::slice::slice_to_vec(vstd::slice::slice_subrange(program_data.data.as_slice(), 13, 45)))
}

/// Run the shared admin authority checks.
fn check_admin_authority(
    program_id: &Vec<u8>,
    owner: &AccountView,
    program_account: &AccountView,
    program_data: &AccountView,
) -> (r: Result<(), CoinbackedError>)
    ensures
        match r {
            Ok(_) => spec_admin_auth_failure(program_id@, *owner, *program_account, *program_data)
                is None,
            Err(e) => spec_admin_auth_failure(program_id@, *owner, *program_account, *program_data)
                == Some(e),
        },
{
    if !keys_equal(&program_account.key, program_id) {
        return Err(CoinbackedError::InvalidAccountData);
    }
    let data_key = match get_program_executable_data_account_key(program_account) {
        Ok(k) => k,
        Err(e) => {
            return Err(e);
        },
    };
    if !keys_equal(&program_data.key, &data_key) {
        return Err(CoinbackedError::InvalidAccountData);
    }
    let authority = match get_update_authority(program_data) {
        Ok(k) => k,
        Err(e) => {
            return Err(e);
        },
    };
    if !keys_equal(&owner.key, &authority) {
        return Err(CoinbackedError::InvalidAccountData);
    }
    Ok(())
}

/// What creating the treasury asks the platform to do; idempotent when the
/// treasury already exists.
pub struct AdminCreateTreasuryEffects {
    /// Whether a new treasury account is to be created and initialized.
    pub created: bool,
    /// Bump seed of the derived treasury address.
    pub bump: u8,
    /// Balance floor recorded in the new record (meaningful when created).
    pub rent_excemption: u64,
}

/// First failing check of AdminCreateTreasuryAccount, or `None`.
pub open spec fn spec_admin_create_failure(
    program_id: Seq<u8>,
    owner: AccountView,
    treasury: AccountView,
    program_account: AccountView,
    program_data: AccountView,
) -> Option<CoinbackedError> {
    match spec_admin_auth_failure(program_id, owner, program_account, program_data) {
        Some(e) => Some(e),
        None => match spec_check_treasury(treasury, program_id) {
            Err(e) => Some(e),
            Ok(_) => None,
        },
    }
}

/// Create and initialize the treasury at its derived address, when it does
/// not belong to this program yet; a no-op otherwise.
pub fn process_admin_create_treasury_account(
    program_id: &Vec<u8>,
    owner: &AccountView,
    treasury: &AccountView,
    program_account: &AccountView,
    program_data: &AccountView,
    rent_min_balance: u64,
) -> (r: Result<AdminCreateTreasuryEffects, CoinbackedError>)
    requires
        program_id@.len() == 32,
    ensures
        match r {
            Ok(eff) => {
                &&& spec_admin_create_failure(
                    program_id@, *owner, *treasury, *program_account, *program_data,
                ) is None
                &&& spec_check_treasury(*treasury, program_id@) == Ok::<u8, CoinbackedError>(
                    eff.bump,
                )
                &&& eff.created == (treasury.owner@ != program_id@)
                &&& eff.rent_excemption == (if rent_min_balance < 1 { 1u64 } else {
                    rent_min_balance
                })
            },
            Err(e) => spec_admin_create_failure(
                program_id@, *owner, *treasury, *program_account, *program_data,
            ) == Some(e),
        },
{
    match check_admin_authority(program_id, owner, program_account, program_data) {
        Ok(_) => (),
        Err(e) => {
            return Err(e);
        },
    }
    let bump = match check_protocol_treasury_account(treasury, program_id) {
        Ok(b) => b,
        Err(e) => {
            return Err(e);
        },
    };
    let created: bool = !keys_equal(&treasury.owner, program_id);
    let rent_excemption: u64 = if rent_min_balance < 1 { 1 } else { rent_min_balance };
    Ok(AdminCreateTreasuryEffects { created, bump, rent_excemption })
}

/// Balance moves of a treasury payout.
pub struct AdminTransferEffects {
    /// Treasury balance after the transfer.
    pub treasury_lamports_after: u64,
    /// Receiver balance after the transfer.
    pub receiver_lamports_after: u64,
}

/// The largest amount the treasury can pay out without breaching its floor.
pub open spec fn spec_max_transferable(treasury: AccountView) -> int {
    let rent = spec_u64_from_le_bytes(treasury.data@.subrange(0, 8));
    if treasury.lamports >= rent {
        treasury.lamports - rent
    } else {
        0
    }
}

/// First failing check of AdminTransferFromTreasuryAccount, or `None`.
pub open spec fn spec_admin_transfer_failure(
    program_id: Seq<u8>,
    owner: AccountView,
    receiving: AccountView,
    treasury: AccountView,
    program_account: AccountView,
    program_data: AccountView,
    lamports: u64,
) -> Option<CoinbackedError> {
    match spec_admin_auth_failure(program_id, owner, program_account, program_data) {
        Some(e) => Some(e),
        None => match spec_check_treasury(treasury, program_id) {
            Err(e) => Some(e),
            Ok(_) => if treasury.data@.len() < CO_ACCOUNT_PROTOCOL_TREASURY_BYTE_LEN {
                Some(CoinbackedError::InvalidAccountData)
            } else {
                let rent = spec_u64_from_le_bytes(treasury.data@.subrange(0, 8));
                if treasury.lamports < lamports || treasury.lamports - lamports < rent {
                    Some(
                        CoinbackedError::InsufficientFunds {
                            maximum_transferable: spec_max_transferable(treasury) as u64,
                        },
                    )
                } else if receiving.lamports + lamports > u64::MAX {
                    Some(
                        CoinbackedError::InsufficientFunds {
                            maximum_transferable: spec_max_transferable(treasury) as u64,
                        },
                    )
                } else {
                    None
                }
            },
        },
    }
}

/// Pay `lamports` from the treasury to `receiving`, but never below the
/// treasury's recorded floor; a refusal reports the maximum that would
/// have succeeded.
pub fn process_admin_transfer_from_treasury_account(
    program_id: &Vec<u8>,
    owner: &AccountView,
    receiving: &AccountView,
    treasury: &AccountView,
    program_account: &AccountView,
    program_data: &AccountView,
    lamports: u64,
) -> (r: Result<AdminTransferEffects, CoinbackedError>)
    requires
        program_id@.len() == 32,
    ensures
        match r {
            Ok(eff) => {
                &&& spec_admin_transfer_failure(
                    program_id@, *owner, *receiving, *treasury, *program_account, *program_data,
                    lamports,
                ) is None
                &&& eff.treasury_lamports_after == treasury.lamports - lamports
                &&& eff.receiver_lamports_after == receiving.lamports + lamports
            },
            Err(e) => spec_admin_transfer_failure(
                program_id@, *owner, *receiving, *treasury, *program_account, *program_data,
                lamports,
            ) == Some(e),
        },
{
    match check_admin_authority(program_id, owner, program_account, program_data) {
        Ok(_) => (),
        Err(e) => {
            return Err(e);
        },
    }
    match check_protocol_treasury_account(treasury, program_id) {
        Ok(_) => (),
        Err(e) => {
            return Err(e);
        },
    }
    let record = match TreasuryAccount::unpack(treasury.data.as_slice()) {
        Ok(t) => t,
        Err(e) => {
            return Err(e);
        },
    };
    if treasury.lamports < lamports || treasury.lamports - lamports < record.rent_excemption {
        let maximum_transferable: u64 = if treasury.lamports >= record.rent_excemption {
            treasury.lamports - record.rent_excemption
        } else {
            0
        };
        return Err(CoinbackedError::InsufficientFunds { maximum_transferable });
    }
    let treasury_lamports_after: u64 = treasury.lamports - lamports;
    if receiving.lamports > u64::MAX - lamports {
        let maximum_transferable: u64 = if treasury.lamports >= record.rent_excemption {
            treasury.lamports - record.rent_excemption
        } else {
            0
        };
        return Err(CoinbackedError::InsufficientFunds { maximum_transferable });
    }
    let receiver_lamports_after: u64 = receiving.lamports + lamports;
    Ok(AdminTransferEffects { treasury_lamports_after, receiver_lamports_after })
}

/// Everything one call asks the platform to do, by operation.
pub enum ProcessEffects {
    CreatedBacking(CreateBackingEffects),
    Validated(ValidationReport),
    AddedToBalance(AddToBalanceEffects),
    Burned(BurnEffects),
    Cleaned(CleanEffects),
    CreatedTreasury(AdminCreateTreasuryEffects),
    TransferredFromTreasury(AdminTransferEffects),
}

/// Decode one instruction and run its handler over the supplied account
/// snapshots; `rent_min_backing` and `rent_min_treasury` are the platform's
/// minimum balances for the two record sizes.
pub fn process_instruction(
    program_id: &Vec<u8>,
    accounts: &Vec<AccountView>,
    instruction_data: &[u8],
    rent_min_backing: u64,
    rent_min_treasury: u64,
) -> (r: Result<ProcessEffects, CoinbackedError>)
    requires
        program_id@.len() == 32,
    ensures
        !frame_ok(instruction_data@) ==> r == Err::<ProcessEffects, CoinbackedError>(
            CoinbackedError::InvalidInstructionData,
        ),
        frame_ok(instruction_data@) && (instruction_data@[0] == CO_OP_CREATE_BACKING_ACCOUNT
            || instruction_data@[0] == CO_OP_ADD_TO_BALANCE_OF_BACKING_ACCOUNT
            || instruction_data@[0] == CO_OP_BURN_AND_FREE_BALANCE) && !is_utf8(
            tos_region(instruction_data@),
        ) ==> (r matches Err(CoinbackedError::InvalidUtf8 { valid_up_to }) && valid_up_to
            == utf8_valid_up_to(tos_region(instruction_data@))),
        frame_ok(instruction_data@) && instruction_data@[0] == CO_OP_CREATE_BACKING_ACCOUNT
            && is_utf8(tos_region(instruction_data@)) && accounts@.len() < 7 ==> r == Err::<
            ProcessEffects,
            CoinbackedError,
        >(CoinbackedError::NotEnoughAccountKeys),
        frame_ok(instruction_data@) && instruction_data@[0] == CO_OP_CREATE_BACKING_ACCOUNT
            && is_utf8(tos_region(instruction_data@)) && accounts@.len() >= 7 ==> (match r {
            Ok(eff) => eff matches ProcessEffects::CreatedBacking(c) && spec_create_failure(
                program_id@,
                accounts@[0],
                accounts@[1],
                accounts@[2],
                accounts@[3],
                accounts@[4],
                accounts@[5],
                accounts@[6],
                wire_amount(instruction_data@),
                rent_min_backing,
            ) is None && spec_check_backing(accounts@[3], accounts@[1], program_id@, true) == Ok::<
                u8,
                CoinbackedError,
            >(c.bump) && c.rent_excemption == (if rent_min_backing < 1 {
                1u64
            } else {
                rent_min_backing
            }) && c.backing_lamports == c.rent_excemption + wire_amount(instruction_data@)
                && c.record.token_key@ == accounts@[1].key@ && c.record.rent_excemption
                == c.rent_excemption && c.record.bump == c.bump && c.fee == CO_PROTOCOL_FEE,
            Err(e) => spec_create_failure(
                program_id@,
                accounts@[0],
                accounts@[1],
                accounts@[2],
                accounts@[3],
                accounts@[4],
                accounts@[5],
                accounts@[6],
                wire_amount(instruction_data@),
                rent_min_backing,
            ) == Some(e),
        }),
        frame_ok(instruction_data@) && instruction_data@[0] == CO_OP_VALIDATE_BACKING_ACCOUNT
            && accounts@.len() < 4 ==> r == Err::<ProcessEffects, CoinbackedError>(
            CoinbackedError::NotEnoughAccountKeys,
        ),
        frame_ok(instruction_data@) && instruction_data@[0] == CO_OP_VALIDATE_BACKING_ACCOUNT
            && accounts@.len() >= 4 ==> (match r {
            Ok(eff) => eff matches ProcessEffects::Validated(rep) && spec_validate_failure(
                program_id@,
                accounts@[0],
                accounts@[1],
                accounts@[2],
                accounts@[3],
            ) is None && (pda_of(backing_seeds(accounts@[1].key@, program_id@), program_id@)
                matches Some(kb) && rep.pda_ok == (kb.0 == accounts@[2].key@) && rep.bump_ok == (
            accounts@[2].data@[40] == kb.1)) && rep.mint_match == (accounts@[2].data@.subrange(
                0,
                32,
            ) == accounts@[1].key@) && rep.rent_ok == (spec_u64_from_le_bytes(
                accounts@[2].data@.subrange(32, 40),
            ) <= accounts@[2].lamports) && rep.validation_ok == (rep.pda_ok && rep.mint_match
                && rep.rent_ok && rep.bump_ok) && rep.per_unit_payout == spec_validate_rate(
                accounts@[1].data@[44],
                spec_u64_from_le_bytes(accounts@[1].data@.subrange(36, 44)) as int,
                accounts@[2].lamports as int,
                spec_u64_from_le_bytes(accounts@[2].data@.subrange(32, 40)) as int,
            ) && rep.fixed_supply == (accounts@[1].data@[0] != 1) && rep.fee == CO_PROTOCOL_FEE,
            Err(e) => spec_validate_failure(
                program_id@,
                accounts@[0],
                accounts@[1],
                accounts@[2],
                accounts@[3],
            ) == Some(e),
        }),
        frame_ok(instruction_data@) && instruction_data@[0]
            == CO_OP_ADD_TO_BALANCE_OF_BACKING_ACCOUNT && is_utf8(tos_region(instruction_data@))
            && accounts@.len() < 4 ==> r == Err::<ProcessEffects, CoinbackedError>(
            CoinbackedError::NotEnoughAccountKeys,
        ),
        frame_ok(instruction_data@) && instruction_data@[0]
            == CO_OP_ADD_TO_BALANCE_OF_BACKING_ACCOUNT && is_utf8(tos_region(instruction_data@))
            && accounts@.len() >= 4 ==> (match r {
            Ok(eff) => eff matches ProcessEffects::AddedToBalance(c) && spec_add_failure(
                program_id@,
                accounts@[0],
                accounts@[1],
                accounts@[2],
                accounts@[3],
            ) is None && c.lamports == wire_amount(instruction_data@) && c.fee == CO_PROTOCOL_FEE,
            Err(e) => spec_add_failure(
                program_id@,
                accounts@[0],
                accounts@[1],
                accounts@[2],
                accounts@[3],
            ) == Some(e),
        }),
        frame_ok(instruction_data@) && instruction_data@[0] == CO_OP_BURN_AND_FREE_BALANCE
            && is_utf8(tos_region(instruction_data@)) && accounts@.len() < 6 ==> r == Err::<
            ProcessEffects,
            CoinbackedError,
        >(CoinbackedError::NotEnoughAccountKeys),
        frame_ok(instruction_data@) && instruction_data@[0] == CO_OP_BURN_AND_FREE_BALANCE
            && is_utf8(tos_region(instruction_data@)) && accounts@.len() >= 6 ==> (match r {
            Ok(eff) => eff matches ProcessEffects::Burned(b) && spec_burn_failure(
                program_id@,
                accounts@[0],
                accounts@[1],
                accounts@[2],
                accounts@[3],
                accounts@[4],
                accounts@[5],
                wire_amount(instruction_data@),
            ) is None && b.burn_amount == wire_amount(instruction_data@) && b.payout
                == spec_payout(
                wire_amount(instruction_data@) as int,
                spec_u64_from_le_bytes(accounts@[1].data@.subrange(36, 44)) as int,
                accounts@[3].lamports as int,
                spec_u64_from_le_bytes(accounts@[3].data@.subrange(32, 40)) as int,
            ) && b.backing_lamports_after == accounts@[3].lamports - b.payout
                && b.owner_lamports_after == accounts@[0].lamports + b.payout - CO_PROTOCOL_FEE
                && b.treasury_lamports_after == accounts@[4].lamports + CO_PROTOCOL_FEE,
            Err(e) => spec_burn_failure(
                program_id@,
                accounts@[0],
                accounts@[1],
                accounts@[2],
                accounts@[3],
                accounts@[4],
                accounts@[5],
                wire_amount(instruction_data@),
            ) == Some(e),
        }),
        frame_ok(instruction_data@) && instruction_data@[0] == CO_OP_CLEAN_ACCOUNTS_AFTER_BURNING
            && accounts@.len() < 6 ==> r == Err::<ProcessEffects, CoinbackedError>(
            CoinbackedError::NotEnoughAccountKeys,
        ),
        frame_ok(instruction_data@) && instruction_data@[0] == CO_OP_CLEAN_ACCOUNTS_AFTER_BURNING
            && accounts@.len() >= 6 ==> (match r {
            Ok(eff) => eff matches ProcessEffects::Cleaned(c) && spec_clean_failure(
                accounts@[0],
                accounts@[1],
                accounts@[2],
                accounts@[3],
            ) is None && c.close_token_account == (spec_u64_from_le_bytes(
                accounts@[1].data@.subrange(64, 72),
            ) == 0) && c.sweep_backing == (accounts@[2].lamports <= spec_u64_from_le_bytes(
                accounts@[2].data@.subrange(32, 40),
            )) && c.treasury_lamports_after == (if c.sweep_backing {
                accounts@[3].lamports + accounts@[2].lamports
            } else {
                accounts@[3].lamports as int
            }),
            Err(e) => spec_clean_failure(
                accounts@[0],
                accounts@[1],
                accounts@[2],
                accounts@[3],
            ) == Some(e),
        }),
        frame_ok(instruction_data@) && instruction_data@[0] == CO_OP_ADMIN_CREATE_TREASURY_ACCOUNT
            && accounts@.len() < 6 ==> r == Err::<ProcessEffects, CoinbackedError>(
            CoinbackedError::NotEnoughAccountKeys,
        ),
        frame_ok(instruction_data@) && instruction_data@[0] == CO_OP_ADMIN_CREATE_TREASURY_ACCOUNT
            && accounts@.len() >= 6 ==> (match r {
            Ok(eff) => eff matches ProcessEffects::CreatedTreasury(c)
                && spec_admin_create_failure(
                program_id@,
                accounts@[0],
                accounts@[1],
                accounts@[2],
                accounts@[3],
            ) is None && spec_check_treasury(accounts@[1], program_id@) == Ok::<
                u8,
                CoinbackedError,
            >(c.bump) && c.created == (accounts@[1].owner@ != program_id@) && c.rent_excemption
                == (if rent_min_treasury < 1 {
                1u64
            } else {
                rent_min_treasury
            }),
            Err(e) => spec_admin_create_failure(
                program_id@,
                accounts@[0],
                accounts@[1],
                accounts@[2],
                accounts@[3],
            ) == Some(e),
        }),
        frame_ok(instruction_data@) && instruction_data@[0]
            == CO_OP_ADMIN_TRANSFER_FROM_TREASURY_ACCOUNT && accounts@.len() < 5 ==> r == Err::<
            ProcessEffects,
            CoinbackedError,
        >(CoinbackedError::NotEnoughAccountKeys),
        frame_ok(instruction_data@) && instruction_data@[0]
            == CO_OP_ADMIN_TRANSFER_FROM_TREASURY_ACCOUNT && accounts@.len() >= 5 ==> (match r {
            Ok(eff) => eff matches ProcessEffects::TransferredFromTreasury(t)
                && spec_admin_transfer_failure(
                program_id@,
                accounts@[0],
                accounts@[1],
                accounts@[2],
                accounts@[3],
                accounts@[4],
                wire_amount(instruction_data@),
            ) is None && t.treasury_lamports_after == accounts@[2].lamports - wire_amount(
                instruction_data@,
            ) && t.receiver_lamports_after == accounts@[1].lamports + wire_amount(
                instruction_data@,
            ),
            Err(e) => spec_admin_transfer_failure(
                program_id@,
                accounts@[0],
                accounts@[1],
                accounts@[2],
                accounts@[3],
                accounts@[4],
                wire_amount(instruction_data@),
            ) == Some(e),
        }),
{
    let inst = match Instruction::unpack(instruction_data) {
        Ok(i) => i,
        Err(e) => {
            return Err(e);
        },
    };
    match inst {
        Instruction::CreateBackingAccount { lamports, signed_tos } => {
            if accounts.len() < 7 {
                return Err(CoinbackedError::NotEnoughAccountKeys);
            }
            match process_create_backing_account(
                program_id,
                &accounts[0],
                &accounts[1],
                &accounts[2],
                &accounts[3],
                &accounts[4],
                &accounts[5],
                &accounts[6],
                lamports,
                rent_min_backing,
            ) {
                Ok(eff) => Ok(ProcessEffects::CreatedBacking(eff)),
                Err(e) => Err(e),
            }
        },
        Instruction::ValidateBackingAccount => {
            if accounts.len() < 4 {
                return Err(CoinbackedError::NotEnoughAccountKeys);
            }
            match process_validate_backing_account(
                program_id,
                &accounts[0],
                &accounts[1],
                &accounts[2],
                &accounts[3],
            ) {
                Ok(rep) => Ok(ProcessEffects::Validated(rep)),
                Err(e) => Err(e),
            }
        },
        Instruction::AddToBalanceOfBackingAccount { lamports, signed_tos } => {
            if accounts.len() < 4 {
                return Err(CoinbackedError::NotEnoughAccountKeys);
            }
            match process_add_to_balance_of_backing_account(
                program_id,
                &accounts[0],
                &accounts[1],
                &accounts[2],
                &accounts[3],
                lamports,
            ) {
                Ok(eff) => Ok(ProcessEffects::AddedToBalance(eff)),
                Err(e) => Err(e),
            }
        },
        Instruction::BurnTokenAndFreeBalanace { amount, signed_tos } => {
            if accounts.len() < 6 {
                return Err(CoinbackedError::NotEnoughAccountKeys);
            }
            match process_burn_token_and_free_balanace(
                program_id,
                &accounts[0],
                &accounts[1],
                &accounts[2],
                &accounts[3],
                &accounts[4],
                &accounts[5],
                amount,
            ) {
                Ok(eff) => Ok(ProcessEffects::Burned(eff)),
                Err(e) => Err(e),
            }
        },
        Instruction::CleanAccountsAfterBurning => {
            if accounts.len() < 6 {
                return Err(CoinbackedError::NotEnoughAccountKeys);
            }
            match process_clean_accounts_after_burning(
                &accounts[0],
                &accounts[1],
                &accounts[2],
                &accounts[3],
            ) {
                Ok(eff) => Ok(ProcessEffects::Cleaned(eff)),
                Err(e) => Err(e),
            }
        },
        Instruction::AdminCreateTreasuryAccount => {
            if accounts.len() < 6 {
                return Err(CoinbackedError::NotEnoughAccountKeys);
            }
            match process_admin_create_treasury_account(
                program_id,
                &accounts[0],
                &accounts[1],
                &accounts[2],
                &accounts[3],
                rent_min_treasury,
            ) {
                Ok(eff) => Ok(ProcessEffects::CreatedTreasury(eff)),
                Err(e) => Err(e),
            }
        },
        Instruction::AdminTransferFromTreasuryAccount { lamports } => {
            if accounts.len() < 5 {
                return Err(CoinbackedError::NotEnoughAccountKeys);
            }
            match process_admin_transfer_from_treasury_account(
                program_id,
                &accounts[0],
                &accounts[1],
                &accounts[2],
                &accounts[3],
                &accounts[4],
                lamports,
            ) {
                Ok(eff) => Ok(ProcessEffects::TransferredFromTreasury(eff)),
                Err(e) => Err(e),
            }
        },
    }
}

} // verus!
