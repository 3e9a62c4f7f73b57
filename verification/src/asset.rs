//! Assets, opened records and the outputs that an owner holds.

use vstd::prelude::*;

verus! {

/// Identifier of an asset on the ledger: thirty-two opaque bytes.
#[derive(Clone, Copy, Debug, PartialEq, Eq)]
pub struct AssetType {
    pub code: [u8; 32],
}

impl View for AssetType {
    type V = Seq<u8>;

    open spec fn view(&self) -> Seq<u8> {
        self.code@
    }
}

impl AssetType {
    /// Whether two identifiers name the same asset.
    pub fn same_as(&self, other: &AssetType) -> (same: bool)
        ensures
            same == (self@ == other@),
    {
        let mut i: usize = 0;
        while i < 32
            invariant
                i <= 32,
                forall|j: int| 0 <= j < i ==> self.code@[j] == other.code@[j],
            decreases 32 - i,
        {
            if self.code[i] != other.code[i] {
                return false;
            }
            i += 1;
        }
        assert(self.code@ =~= other.code@);
        true
    }
}

/// The plaintext of a blinded record: what opening it with the owner's key
/// yields.
#[derive(Clone, Copy, Debug, PartialEq, Eq)]
pub struct OpenedRecord {
    pub amount: u64,
    pub asset_type: AssetType,
}

/// An unspent output of the owner, opened: its reference on the ledger and
/// its plaintext.
#[derive(Clone, Copy, Debug, PartialEq, Eq)]
pub struct OwnedOutput {
    pub reference: u64,
    pub opened: OpenedRecord,
}

impl OwnedOutput {
    /// What the output adds to a balance held in `target`: its amount where
    /// it is denominated in `target`, nothing otherwise.
    pub open spec fn contribution(self, target: AssetType) -> nat {
        if self.opened.asset_type@ == target@ {
            self.opened.amount as nat
        } else {
            0
        }
    }
}

} // verus!
