use vstd::prelude::*;
use vstd::bytes::{spec_u64_from_le_bytes, u64_from_le_bytes};
use vstd::slice::{slice_subrange, slice_to_vec};
use crate::error::CoinbackedError;
use crate::utf8::{is_utf8, utf8_chars, utf8_valid_up_to, validate_utf8, string_from_utf8};
use crate::utils::{CO_OP_CREATE_BACKING_ACCOUNT, CO_OP_CREATE_BACKING_ACCOUNT_BYTE_LEN,
    CO_OP_VALIDATE_BACKING_ACCOUNT, CO_OP_VALIDATE_BACKING_ACCOUNT_BYTE_LEN,
    CO_OP_ADD_TO_BALANCE_OF_BACKING_ACCOUNT, CO_OP_ADD_TO_BALANCE_OF_BACKING_ACCOUNT_BYTE_LEN,
    CO_OP_BURN_AND_FREE_BALANCE, CO_OP_BURN_AND_FREE_BALANCE_BYTE_LEN,
    CO_OP_CLEAN_ACCOUNTS_AFTER_BURNING, CO_OP_CLEAN_ACCOUNTS_AFTER_BURNING_BYTE_LEN,
    CO_OP_ADMIN_CREATE_TREASURY_ACCOUNT, CO_OP_ADMIN_CREATE_TREASURY_ACCOUNT_BYTE_LEN,
    CO_OP_ADMIN_TRANSFER_FROM_TREASURY_ACCOUNT,
    CO_OP_ADMIN_TRANSFER_FROM_TREASURY_ACCOUNT_BYTE_LEN};

verus! {

/// A decoded command, one per opcode.
#[derive(Debug)]
pub enum Instruction {
    /// Create and fund the backing reserve for a mint.
    CreateBackingAccount { lamports: u64, signed_tos: String },
    /// Read-only diagnostic pass over an existing reserve.
    ValidateBackingAccount,
    /// Add funds to an existing reserve.
    AddToBalanceOfBackingAccount { lamports: u64, signed_tos: String },
    /// Burn tokens and redeem the proportional share of the reserve.
    BurnTokenAndFreeBalanace { amount: u64, signed_tos: String },
    /// Close emptied accounts and sweep an emptied reserve to the treasury.
    CleanAccountsAfterBurning,
    /// Create the protocol treasury (admin only).
    AdminCreateTreasuryAccount,
    /// Pay out from the treasury (admin only).
    AdminTransferFromTreasuryAccount { lamports: u64 },
}

/// The exact instruction length demanded for opcode `op`, or 0 when the
/// opcode is unknown.
pub open spec fn op_exact_len(op: u8) -> int {
    if op == CO_OP_CREATE_BACKING_ACCOUNT {
        CO_OP_CREATE_BACKING_ACCOUNT_BYTE_LEN as int
    } else if op == CO_OP_VALIDATE_BACKING_ACCOUNT {
        CO_OP_VALIDATE_BACKING_ACCOUNT_BYTE_LEN as int
    } else if op == CO_OP_ADD_TO_BALANCE_OF_BACKING_ACCOUNT {
        CO_OP_ADD_TO_BALANCE_OF_BACKING_ACCOUNT_BYTE_LEN as int
    } else if op == CO_OP_BURN_AND_FREE_BALANCE {
        CO_OP_BURN_AND_FREE_BALANCE_BYTE_LEN as int
    } else if op == CO_OP_CLEAN_ACCOUNTS_AFTER_BURNING {
        CO_OP_CLEAN_ACCOUNTS_AFTER_BURNING_BYTE_LEN as int
    } else if op == CO_OP_ADMIN_CREATE_TREASURY_ACCOUNT {
        CO_OP_ADMIN_CREATE_TREASURY_ACCOUNT_BYTE_LEN as int
    } else if op == CO_OP_ADMIN_TRANSFER_FROM_TREASURY_ACCOUNT {
        CO_OP_ADMIN_TRANSFER_FROM_TREASURY_ACCOUNT_BYTE_LEN as int
    } else {
        0
    }
}

/// Whether `data` has a known opcode and exactly the length that opcode
/// demands.
pub open spec fn frame_ok(data: Seq<u8>) -> bool {
    data.len() >= 1 && op_exact_len(data[0]) == data.len()
}

/// The little-endian u64 amount field of an instruction that carries one.
pub open spec fn wire_amount(data: Seq<u8>) -> u64 {
    spec_u64_from_le_bytes(data.subrange(1, 9))
}

/// The terms-of-service byte region of an instruction that carries one.
pub open spec fn tos_region(data: Seq<u8>) -> Seq<u8> {
    data.subrange(9, 137)
}

impl Instruction {
    /// Decode one instruction from its wire form: byte 0 selects the
    /// opcode, which fixes the exact expected length; amounts are
    /// little-endian u64, and the terms-of-service field is a 128-byte
    /// UTF-8 region.
    pub fn unpack(instruction_data: &[u8]) -> (r: Result<Instruction, CoinbackedError>)
        ensures
            r is Ok ==> frame_ok(instruction_data@),
            match r {
                Ok(i) => match i {
                    Instruction::CreateBackingAccount { lamports, signed_tos } => {
                        &&& instruction_data@[0] == CO_OP_CREATE_BACKING_ACCOUNT
                        &&& is_utf8(tos_region(instruction_data@))
                        &&& lamports == spec_u64_from_le_bytes(instruction_data@.subrange(1, 9))
                        &&& signed_tos@ == utf8_chars(tos_region(instruction_data@))
                    },
                    Instruction::ValidateBackingAccount => instruction_data@[0]
                        == CO_OP_VALIDATE_BACKING_ACCOUNT,
                    Instruction::AddToBalanceOfBackingAccount { lamports, signed_tos } => {
                        &&& instruction_data@[0] == CO_OP_ADD_TO_BALANCE_OF_BACKING_ACCOUNT
                        &&& is_utf8(tos_region(instruction_data@))
                        &&& lamports == spec_u64_from_le_bytes(instruction_data@.subrange(1, 9))
                        &&& signed_tos@ == utf8_chars(tos_region(instruction_data@))
                    },
                    Instruction::BurnTokenAndFreeBalanace { amount, signed_tos } => {
                        &&& instruction_data@[0] == CO_OP_BURN_AND_FREE_BALANCE
                        &&& is_utf8(tos_region(instruction_data@))
                        &&& amount == spec_u64_from_le_bytes(instruction_data@.subrange(1, 9))
                        &&& signed_tos@ == utf8_chars(tos_region(instruction_data@))
                    },
                    Instruction::CleanAccountsAfterBurning => instruction_data@[0]
                        == CO_OP_CLEAN_ACCOUNTS_AFTER_BURNING,
                    Instruction::AdminCreateTreasuryAccount => instruction_data@[0]
                        == CO_OP_ADMIN_CREATE_TREASURY_ACCOUNT,
                    Instruction::AdminTransferFromTreasuryAccount { lamports } => {
                        &&& instruction_data@[0] == CO_OP_ADMIN_TRANSFER_FROM_TREASURY_ACCOUNT
                        &&& lamports == spec_u64_from_le_bytes(instruction_data@.subrange(1, 9))
                    },
                },
                Err(CoinbackedError::InvalidInstructionData) => !frame_ok(instruction_data@),
                Err(CoinbackedError::InvalidUtf8 { valid_up_to }) => {
                    &&& frame_ok(instruction_data@)
                    &&& (instruction_data@[0] == CO_OP_CREATE_BACKING_ACCOUNT
                        || instruction_data@[0] == CO_OP_ADD_TO_BALANCE_OF_BACKING_ACCOUNT
                        || instruction_data@[0] == CO_OP_BURN_AND_FREE_BALANCE)
                    &&& !is_utf8(tos_region(instruction_data@))
                    &&& valid_up_to == utf8_valid_up_to(tos_region(instruction_data@))
                },
                Err(_) => false,
            },
    {
        if instruction_data.len() < 1 {
            return Err(CoinbackedError::InvalidInstructionData);
        }
        let op: u8 = *vstd::slice::slice_index_get(instruction_data, 0);
        if op == CO_OP_CREATE_BACKING_ACCOUNT {
            if instruction_data.len() != CO_OP_CREATE_BACKING_ACCOUNT_BYTE_LEN {
                return Err(CoinbackedError::InvalidInstructionData);
            }
            let lamports: u64 = u64_from_le_bytes(slice_subrange(instruction_data, 1, 9));
            let tos: &[u8] = slice_subrange(instruction_data, 9, 137);
            let valid: usize = validate_utf8(tos);
            if valid != 128 {
                return Err(CoinbackedError::InvalidUtf8 { valid_up_to: valid });
            }
            let signed_tos: String = string_from_utf8(slice_to_vec(tos));
            Ok(Instruction::CreateBackingAccount { lamports, signed_tos })
        } else if op == CO_OP_VALIDATE_BACKING_ACCOUNT {
            if instruction_data.len() != CO_OP_VALIDATE_BACKING_ACCOUNT_BYTE_LEN {
                return Err(CoinbackedError::InvalidInstructionData);
            }
            Ok(Instruction::ValidateBackingAccount)
        } else if op == CO_OP_ADD_TO_BALANCE_OF_BACKING_ACCOUNT {
            if instruction_data.len() != CO_OP_ADD_TO_BALANCE_OF_BACKING_ACCOUNT_BYTE_LEN {
                return Err(CoinbackedError::InvalidInstructionData);
            }
            let lamports: u64 = u64_from_le_bytes(slice_subrange(instruction_data, 1, 9));
            let tos: &[u8] = slice_subrange(instruction_data, 9, 137);
            let valid: usize = validate_utf8(tos);
            if valid != 128 {
                return Err(CoinbackedError::InvalidUtf8 { valid_up_to: valid });
            }
            let signed_tos: String = string_from_utf8(slice_to_vec(tos));
            Ok(Instruction::AddToBalanceOfBackingAccount { lamports, signed_tos })
        } else if op == CO_OP_BURN_AND_FREE_BALANCE {
            if instruction_data.len() != CO_OP_BURN_AND_FREE_BALANCE_BYTE_LEN {
                return Err(CoinbackedError::InvalidInstructionData);
            }
            let amount: u64 = u64_from_le_bytes(slice_subrange(instruction_data, 1, 9));
            let tos: &[u8] = slice_subrange(instruction_data, 9, 137);
            let valid: usize = validate_utf8(tos);
            if valid != 128 {
                return Err(CoinbackedError::InvalidUtf8 { valid_up_to: valid });
            }
            let signed_tos: String = string_from_utf8(slice_to_vec(tos));
            Ok(Instruction::BurnTokenAndFreeBalanace { amount, signed_tos })
        } else if op == CO_OP_CLEAN_ACCOUNTS_AFTER_BURNING {
            if instruction_data.len() != CO_OP_CLEAN_ACCOUNTS_AFTER_BURNING_BYTE_LEN {
                return Err(CoinbackedError::InvalidInstructionData);
            }
            Ok(Instruction::CleanAccountsAfterBurning)
        } else if op == CO_OP_ADMIN_CREATE_TREASURY_ACCOUNT {
            if instruction_data.len() != CO_OP_ADMIN_CREATE_TREASURY_ACCOUNT_BYTE_LEN {
                return Err(CoinbackedError::InvalidInstructionData);
            }
            Ok(Instruction::AdminCreateTreasuryAccount)
        } else if op == CO_OP_ADMIN_TRANSFER_FROM_TREASURY_ACCOUNT {
            if instruction_data.len() != CO_OP_ADMIN_TRANSFER_FROM_TREASURY_ACCOUNT_BYTE_LEN {
                return Err(CoinbackedError::InvalidInstructionData);
            }
            let lamports: u64 = u64_from_le_bytes(slice_subrange(instruction_data, 1, 9));
            Ok(Instruction::AdminTransferFromTreasuryAccount { lamports })
        } else {
            Err(CoinbackedError::InvalidInstructionData)
        }
    }
}

} // verus!
