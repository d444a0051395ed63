use vstd::prelude::*;

pub mod decimal;
pub mod ledger;
pub mod processor;
pub mod instruction;
pub mod utf8;
pub mod state;
pub mod utils;
pub mod error;
pub mod u192;

verus! {

/// Fixed fee, in lamports, charged to the caller on every fee-bearing operation.
pub const CO_PROTOCOL_FEE: u64 = 5000;

} // verus!
