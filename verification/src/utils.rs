use vstd::prelude::*;

verus! {

// Wire-format sizes shared by the decoder and the codec.
pub const CO_OPERATION_BYTE_LEN: usize = 1;
pub const CO_SIGNATURE_BASE58_BYTE_LEN: usize = 128;
pub const CO_LAMPORTS_BYTE_LEN: usize = 8;
pub const CO_TOKEN_AMOUNT_BYTE_LEN: usize = 8;
pub const CO_BUMP_BYTE_LEN: usize = 1;
pub const CO_PUBKEY_BYTE_LEN: usize = 32;

pub const CO_ACCOUNT_BACKING_BYTE_LEN: usize = 41;
pub const CO_ACCOUNT_PROTOCOL_TREASURY_BYTE_LEN: usize = 9;

// Opcodes and their exact instruction lengths.
pub const CO_OP_CREATE_BACKING_ACCOUNT: u8 = 0;
pub const CO_OP_CREATE_BACKING_ACCOUNT_BYTE_LEN: usize = 137;
pub const CO_OP_VALIDATE_BACKING_ACCOUNT: u8 = 1;
pub const CO_OP_VALIDATE_BACKING_ACCOUNT_BYTE_LEN: usize = 1;
pub const CO_OP_ADD_TO_BALANCE_OF_BACKING_ACCOUNT: u8 = 2;
pub const CO_OP_ADD_TO_BALANCE_OF_BACKING_ACCOUNT_BYTE_LEN: usize = 137;
pub const CO_OP_BURN_AND_FREE_BALANCE: u8 = 3;
pub const CO_OP_BURN_AND_FREE_BALANCE_BYTE_LEN: usize = 137;
pub const CO_OP_CLEAN_ACCOUNTS_AFTER_BURNING: u8 = 4;
pub const CO_OP_CLEAN_ACCOUNTS_AFTER_BURNING_BYTE_LEN: usize = 1;
pub const CO_OP_ADMIN_CREATE_TREASURY_ACCOUNT: u8 = 10;
pub const CO_OP_ADMIN_CREATE_TREASURY_ACCOUNT_BYTE_LEN: usize = 1;
pub const CO_OP_ADMIN_TRANSFER_FROM_TREASURY_ACCOUNT: u8 = 11;
pub const CO_OP_ADMIN_TRANSFER_FROM_TREASURY_ACCOUNT_BYTE_LEN: usize = 9;

/// The seed string "COINBACKED" as bytes.
pub open spec fn coinbacked_seed() -> Seq<u8> {
    seq![67u8, 79, 73, 78, 66, 65, 67, 75, 69, 68]
}

/// The seed string "COINBACKED-TREASURY" as bytes.
pub open spec fn treasury_seed() -> Seq<u8> {
    seq![67u8, 79, 73, 78, 66, 65, 67, 75, 69, 68, 45, 84, 82, 69, 65, 83, 85, 82, 89]
}

pub fn coinbacked_seed_bytes() -> (r: Vec<u8>)
    ensures
        r@ == coinbacked_seed(),
{
    let r: Vec<u8> = vec![67u8, 79, 73, 78, 66, 65, 67, 75, 69, 68];
    proof {
        assert(r@ =~= coinbacked_seed());
    }
    r
}

pub fn treasury_seed_bytes() -> (r: Vec<u8>)
    ensures
        r@ == treasury_seed(),
{
    let r: Vec<u8> = vec![
        67u8, 79, 73, 78, 66, 65, 67, 75, 69, 68, 45, 84, 82, 69, 65, 83, 85, 82, 89,
    ];
    proof {
        assert(r@ =~= treasury_seed());
    }
    r
}

/// The system program's well-known identifier: thirty-two zero bytes.
pub open spec fn system_program_id() -> Seq<u8> {
    Seq::new(32, |i: int| 0u8)
}

/// The rent sysvar's well-known identifier.
pub open spec fn rent_sysvar_id() -> Seq<u8> {
    seq![
        6u8, 167, 213, 23, 25, 44, 92, 81, 33, 140, 201, 76, 61, 74, 241, 127, 88, 218, 238, 8,
        155, 161, 253, 68, 227, 219, 217, 138, 0, 0, 0, 0,
    ]
}

/// The token program's well-known identifier.
pub open spec fn token_program_id() -> Seq<u8> {
    seq![
        6u8, 221, 246, 225, 215, 101, 161, 147, 217, 203, 225, 70, 206, 235, 121, 172, 28, 180,
        133, 237, 95, 91, 55, 145, 58, 140, 245, 133, 126, 255, 0, 169,
    ]
}

pub fn system_program_id_bytes() -> (r: Vec<u8>)
    ensures
        r@ == system_program_id(),
{
    let mut r: Vec<u8> = Vec::new();
    let mut i: usize = 0;
    while i < 32
        invariant
            i <= 32,
            r@.len() == i,
            forall|j: int| 0 <= j < i ==> r@[j] == 0u8,
        decreases 32 - i,
    {
        r.push(0u8);
        i = i + 1;
    }
    proof {
        assert(r@ =~= system_program_id());
    }
    r
}

pub fn rent_sysvar_id_bytes() -> (r: Vec<u8>)
    ensures
        r@ == rent_sysvar_id(),
{
    let r: Vec<u8> = vec![
        6u8, 167, 213, 23, 25, 44, 92, 81, 33, 140, 201, 76, 61, 74, 241, 127, 88, 218, 238, 8,
        155, 161, 253, 68, 227, 219, 217, 138, 0, 0, 0, 0,
    ];
    proof {
        assert(r@ =~= rent_sysvar_id());
    }
    r
}

pub fn token_program_id_bytes() -> (r: Vec<u8>)
    ensures
        r@ == token_program_id(),
{
    let r: Vec<u8> = vec![
        6u8, 221, 246, 225, 215, 101, 161, 147, 217, 203, 225, 70, 206, 235, 121, 172, 28, 180,
        133, 237, 95, 91, 55, 145, 58, 140, 245, 133, 126, 255, 0, 169,
    ];
    proof {
        assert(r@ =~= token_program_id());
    }
    r
}

/// Byte-wise equality of two keys or byte buffers.
pub fn keys_equal(a: &Vec<u8>, b: &Vec<u8>) -> (r: bool)
    ensures
        r == (a@ == b@),
{
    if a.len() != b.len() {
        proof {
            assert(a@ !~= b@);
        }
        return false;
    }
    let mut i: usize = 0;
    while i < a.len()
        invariant
            i <= a.len(),
            a@.len() == b@.len(),
            forall|j: int| 0 <= j < i ==> a@[j] == b@[j],
        decreases a.len() - i,
    {
        if a[i] != b[i] {
            proof {
                assert(a@ !~= b@);
            }
            return false;
        }
        i = i + 1;
    }
    proof {
        assert(a@ =~= b@);
    }
    true
}

} // verus!
