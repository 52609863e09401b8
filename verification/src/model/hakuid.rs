//! Ids of HAKUMI records.
use vstd::prelude::*;

verus! {

/// The id of a HAKUMI record: the 128 bits of its UUID.
#[derive(Debug, Clone, Copy, PartialEq, Eq, Structural, Hash)]
pub struct HakuId {
    pub value: u128,
}

impl HakuId {
    /// The id with the given UUID bits.
    pub fn new(value: u128) -> (r: HakuId)
        ensures
            r.value == value,
    {
        HakuId { value }
    }
}

} // verus!
