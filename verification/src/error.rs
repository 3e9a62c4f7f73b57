//! The kinds of failure.

use vstd::prelude::*;

verus! {

/// Why a transfer could not be built.
///
/// Every step reports the first failure it meets with its own kind; none is
/// folded into another. Keys are decoded and the finished payload is
/// serialised by whoever drives the builders, who reports `KeyDecode` and
/// `Serialization`; the other kinds arise in this crate.
#[derive(Clone, Copy, Debug, PartialEq, Eq, Structural)]
pub enum TransferError {
    /// Key bytes or their encoding were malformed.
    KeyDecode,
    /// A read from the ledger endpoint failed, or its body could not be
    /// understood.
    RemoteFetch,
    /// What was collected does not cover what is owed; `shortfall` is the
    /// missing amount.
    InsufficientFunds { shortfall: u128 },
    /// The operation builder refused an input, an output, the finalisation or
    /// a signature.
    LedgerBuilder,
    /// The finished payload could not be serialised.
    Serialization,
}

} // verus!
