use vstd::prelude::*;

verus! {

/// Typed failures surfaced by the decoder, the decimal engine and the
/// instruction processor.
#[derive(Clone, Copy, Debug, PartialEq, Eq, Structural)]
pub enum CoinbackedError {
    /// Overflow, underflow or division by zero in checked arithmetic.
    MathError,
    /// Malformed or mis-sized instruction data, or a field check that the
    /// caller's data failed.
    InvalidInstructionData,
    /// The terms-of-service region is not valid UTF-8; `valid_up_to` is the
    /// offset of the first invalid byte within that region.
    InvalidUtf8 { valid_up_to: usize },
    /// The account that must sign the call did not.
    MissingRequiredSignature,
    /// An account's address, record, owner or writability check failed.
    InvalidAccountData,
    /// A well-known program or sysvar identity did not match.
    IncorrectProgramId,
    /// A transfer would breach the treasury's rent-exemption floor;
    /// `maximum_transferable` is the largest amount that would succeed.
    InsufficientFunds { maximum_transferable: u64 },
    /// Fewer accounts were supplied than the operation needs.
    NotEnoughAccountKeys,
}

} // verus!
