use vstd::prelude::*;
use vstd::bytes::spec_u64_from_le_bytes;
use solana_program::program_pack::Pack;

verus! {

/// Plain-value snapshot of one ledger account, as the surrounding platform
/// hands it to the processor.
pub struct AccountView {
    /// The account's address; 32 bytes.
    pub key: Vec<u8>,
    /// Current balance in lamports.
    pub lamports: u64,
    /// Address of the program owning the account; 32 bytes.
    pub owner: Vec<u8>,
    /// The account's data bytes.
    pub data: Vec<u8>,
    /// Whether the account signed the call.
    pub is_signer: bool,
    /// Whether the account may be written in the call.
    pub is_writable: bool,
}

impl AccountView {
    pub open spec fn wf(self) -> bool {
        self.key@.len() == 32 && self.owner@.len() == 32
    }
}

/// The fields of a token-holding account that the processor reads.
pub struct TokenAccountView {
    /// Mint the holding belongs to; 32 bytes.
    pub mint: Vec<u8>,
    /// Owner of the holding; 32 bytes.
    pub owner: Vec<u8>,
    /// Token amount held.
    pub amount: u64,
}

/// The fields of a mint that the processor reads.
pub struct MintView {
    /// Total supply of the token.
    pub supply: u64,
    /// Number of base-10 fractional digits of the token.
    pub decimals: u8,
    /// Whether an authority may still mint further tokens.
    pub has_mint_authority: bool,
}

/// Whether 36 bytes form a well-formed optional-key cell: a 4-byte tag of
/// 0 or 1 followed by the key.
pub open spec fn coption_key_ok(s: Seq<u8>) -> bool {
    s.len() == 36 && (s[0] == 0 || s[0] == 1) && s[1] == 0 && s[2] == 0 && s[3] == 0
}

/// Whether 12 bytes form a well-formed optional-u64 cell.
pub open spec fn coption_u64_ok(s: Seq<u8>) -> bool {
    s.len() == 12 && (s[0] == 0 || s[0] == 1) && s[1] == 0 && s[2] == 0 && s[3] == 0
}

/// Whether `s` parses as an initialized token-holding account record.
pub open spec fn spl_token_account_ok(s: Seq<u8>) -> bool {
    &&& s.len() == 165
    &&& coption_key_ok(s.subrange(72, 108))
    &&& 1 <= s[108] <= 2
    &&& coption_u64_ok(s.subrange(109, 121))
    &&& coption_key_ok(s.subrange(129, 165))
}

/// Whether `s` parses as an initialized mint record.
pub open spec fn spl_mint_ok(s: Seq<u8>) -> bool {
    &&& s.len() == 82
    &&& coption_key_ok(s.subrange(0, 36))
    &&& s[45] == 1
    &&& coption_key_ok(s.subrange(46, 82))
}

/// Relies on `spl_token::state::Account::unpack`: it succeeds exactly on a
/// 165-byte initialized record with well-formed optional cells, and reads
/// the mint at bytes 0..32, the owner at 32..64 and the little-endian
/// amount at 64..72.
#[verifier::external_body]
pub fn unpack_spl_token_account(data: &Vec<u8>) -> (r: Option<TokenAccountView>)
    ensures
        match r {
            Some(t) => spl_token_account_ok(data@) && t.mint@ == data@.subrange(0, 32) && t.owner@
                == data@.subrange(32, 64) && t.amount == spec_u64_from_le_bytes(
                data@.subrange(64, 72),
            ) && t.mint@.len() == 32 && t.owner@.len() == 32,
            None => !spl_token_account_ok(data@),
        },
{
    match spl_token::state::Account::unpack(data.as_slice()) {
        Ok(a) => Some(
            TokenAccountView {
                mint: a.mint.to_bytes().to_vec(),
                owner: a.owner.to_bytes().to_vec(),
                amount: a.amount,
            },
        ),
        Err(_) => None,
    }
}

/// Relies on `spl_token::state::Mint::unpack`: it succeeds exactly on an
/// 82-byte initialized record with well-formed optional cells, and reads
/// the little-endian supply at bytes 36..44, the decimals at 44, and the
/// mint-authority presence from the tag byte at 0.
#[verifier::external_body]
pub fn unpack_spl_mint(data: &Vec<u8>) -> (r: Option<MintView>)
    ensures
        match r {
            Some(m) => spl_mint_ok(data@) && m.supply == spec_u64_from_le_bytes(
                data@.subrange(36, 44),
            ) && m.decimals == data@[44] && m.has_mint_authority == (data@[0] == 1),
            None => !spl_mint_ok(data@),
        },
{
    match spl_token::state::Mint::unpack(data.as_slice()) {
        Ok(m) => Some(
            MintView {
                supply: m.supply,
                decimals: m.decimals,
                has_mint_authority: m.mint_authority.is_some(),
            },
        ),
        Err(_) => None,
    }
}

/// The derived address and bump seed for a seed tuple under a program, as
/// the platform's deterministic derivation computes them; `None` in the
/// improbable case that no bump seed works.
pub uninterp spec fn pda_of(seeds: Seq<Seq<u8>>, program_id: Seq<u8>) -> Option<(Seq<u8>, u8)>;

/// Relies on `Pubkey::try_find_program_address`: a pure derivation from the
/// seeds and program id, returning a 32-byte address and its bump seed.
#[verifier::external_body]
pub fn find_pda(seeds: &Vec<Vec<u8>>, program_id: &Vec<u8>) -> (r: Option<(Vec<u8>, u8)>)
    requires
        program_id@.len() == 32,
    ensures
        match r {
            Some(p) => pda_of(seeds@.map_values(|s: Vec<u8>| s@), program_id@) == Some(
                (p.0@, p.1),
            ) && p.0@.len() == 32,
            None => pda_of(seeds@.map_values(|s: Vec<u8>| s@), program_id@) is None,
        },
{
    let mut pid_bytes = [0u8; 32];
    pid_bytes.copy_from_slice(program_id.as_slice());
    let pid = solana_program::pubkey::Pubkey::new_from_array(pid_bytes);
    let seed_slices: Vec<&[u8]> = seeds.iter().map(|s| s.as_slice()).collect();
    match solana_program::pubkey::Pubkey::try_find_program_address(&seed_slices, &pid) {
        Some((k, b)) => Some((k.to_bytes().to_vec(), b)),
        None => None,
    }
}

} // verus!
