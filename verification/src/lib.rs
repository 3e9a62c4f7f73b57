//! Builds balanced token-transfer transactions for a ledger of blinded,
//! unspent outputs: which outputs to spend, which outputs to create, the memo
//! that tags the transfer, and the order in which the pieces are handed to the
//! ledger's operation builder.

use vstd::prelude::*;

pub mod assemble;
pub mod asset;
pub mod endpoint;
pub mod error;
pub mod json;
pub mod memo;
pub mod plan;
pub mod select;
pub mod transfer;

verus! {

/// Sum of two amounts.
pub fn add(a: u64, b: u64) -> (sum: u64)
    requires
        a + b <= u64::MAX,
    ensures
        sum == a + b,
{
    a + b
}

} // verus!
