//! The stored content unit and its mathematical shape.

use vstd::prelude::*;

verus! {

/// A stored record: a payload, its author, and the identifiers of the tags
/// it was stored with.
pub struct WeightData {
    pub payload: Vec<u8>,
    pub author: u64,
    pub tag_refs: Vec<Vec<u8>>,
}

/// The mathematical shape of a stored record.
pub struct WeightDataModel {
    pub payload: Seq<u8>,
    pub author: u64,
    pub tag_refs: Seq<Seq<u8>>,
}

impl DeepView for WeightData {
    type V = WeightDataModel;

    open spec fn deep_view(&self) -> WeightDataModel {
        WeightDataModel {
            payload: self.payload.deep_view(),
            author: self.author,
            tag_refs: self.tag_refs.deep_view(),
        }
    }
}

} // verus!
