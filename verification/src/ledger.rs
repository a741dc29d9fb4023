//! Who calls, and when.

use vstd::prelude::*;

use crate::model::{bytes_eq, copied_list, Bytes, Modeled};

verus! {

/// An account or a contract, by the bytes of its textual key.
#[derive(Debug, Clone, PartialEq, Eq)]
pub struct Address {
    pub key: Bytes,
}

impl Modeled for Address {
    type M = Seq<u8>;

    open spec fn model(&self) -> Seq<u8> {
        self.key@
    }

    fn copied(&self) -> (copy: Address) {
        Address { key: self.key.copied() }
    }
}

impl Modeled for Vec<Address> {
    type M = Seq<Seq<u8>>;

    open spec fn model(&self) -> Seq<Seq<u8>> {
        crate::model::models(self@)
    }

    fn copied(&self) -> (copy: Vec<Address>) {
        copied_list(self)
    }
}

impl Address {
    /// Whether two addresses are the same.
    pub fn same(&self, other: &Address) -> (same: bool)
        ensures
            same == (self.model() == other.model()),
    {
        bytes_eq(&self.key, &other.key)
    }
}

/// The circumstances of one call: the closing time and the number of the
/// ledger that the call runs in, and the addresses that authorized it.
#[derive(Debug, Clone, PartialEq, Eq)]
pub struct Invocation {
    pub timestamp: u64,
    pub sequence: u32,
    pub signers: Vec<Address>,
}

impl Invocation {
    /// Whether the address with the given key authorized the call.
    pub open spec fn signed_by(&self, key: Seq<u8>) -> bool {
        self.signers.model().contains(key)
    }
}

} // verus!
