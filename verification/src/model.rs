//! The registry's mathematical state and the meaning of each operation on
//! it. Every operation contract is stated against these definitions.

use vstd::prelude::*;
use crate::hashing::{tag_id_of, tag_ids_of, vector_id_of};
use crate::pallet::Error;
use crate::record::WeightDataModel;

verus! {

/// The registry's mathematical state: the configured bounds and the three
/// maps (content store, tag store, author index).
#[verifier::ext_equal]
pub struct RegistryModel {
    pub max_vectors: u32,
    pub max_vector_length: u32,
    pub max_tag_length: u32,
    pub max_tags_per_vector: u32,
    pub vectors: Map<Seq<u8>, WeightDataModel>,
    pub tags: Map<Seq<u8>, Seq<u8>>,
    pub author_vectors: Map<u64, Seq<Seq<u8>>>,
}

/// The notifications an operation hands back on success.
#[verifier::ext_equal]
pub enum EventModel {
    VectorStored { vector_id: Seq<u8>, author: u64 },
    VectorsPruned { count: nat },
}

/// A freshly created registry: the given bounds and three empty maps.
pub open spec fn empty_registry(
    max_vectors: u32,
    max_vector_length: u32,
    max_tag_length: u32,
    max_tags_per_vector: u32,
) -> RegistryModel {
    RegistryModel {
        max_vectors,
        max_vector_length,
        max_tag_length,
        max_tags_per_vector,
        vectors: Map::empty(),
        tags: Map::empty(),
        author_vectors: Map::empty(),
    }
}

/// The payload fits the configured bound.
pub open spec fn payload_ok(m: RegistryModel, payload: Seq<u8>) -> bool {
    payload.len() <= m.max_vector_length
}

/// Every tag fits the configured length bound, and there are not too many.
pub open spec fn tags_ok(m: RegistryModel, tags: Seq<Seq<u8>>) -> bool {
    &&& tags.len() <= m.max_tags_per_vector
    &&& forall|i: int| 0 <= i < tags.len() ==> #[trigger] tags[i].len() <= m.max_tag_length
}

/// Appending one more identifier to the author's list stays within bound.
pub open spec fn author_ok(m: RegistryModel, author: u64) -> bool {
    if m.author_vectors.dom().contains(author) {
        m.author_vectors[author].len() + 1 <= m.max_vectors
    } else {
        m.max_vectors >= 1
    }
}

/// A store request passes every validation step.
pub open spec fn store_accepts(
    m: RegistryModel,
    author: u64,
    payload: Seq<u8>,
    tags: Seq<Seq<u8>>,
) -> bool {
    payload_ok(m, payload) && tags_ok(m, tags) && author_ok(m, author)
}

/// The error a rejected store request surfaces, in validation order:
/// the payload bound first, then the tag bounds, then the author's
/// vector limit (which the interface reports as `VectorNotFound`).
pub open spec fn store_error(
    m: RegistryModel,
    author: u64,
    payload: Seq<u8>,
    tags: Seq<Seq<u8>>,
) -> Error {
    if !payload_ok(m, payload) {
        Error::InvalidVectorData
    } else if !tags_ok(m, tags) {
        Error::TagTooLong
    } else {
        Error::VectorNotFound
    }
}

/// The tag store after interning each submitted tag, in submission order,
/// keyed by the digest of its content.
pub open spec fn tags_after(tm: Map<Seq<u8>, Seq<u8>>, tags: Seq<Seq<u8>>) -> Map<Seq<u8>, Seq<u8>>
    decreases tags.len(),
{
    if tags.len() == 0 {
        tm
    } else {
        tags_after(tm, tags.drop_last()).insert(tag_id_of(tags.last()), tags.last())
    }
}

/// The author's list after appending the new identifier (created if absent).
pub open spec fn author_list_after(m: RegistryModel, author: u64, vid: Seq<u8>) -> Seq<Seq<u8>> {
    if m.author_vectors.dom().contains(author) {
        m.author_vectors[author].push(vid)
    } else {
        seq![vid]
    }
}

/// The state after an accepted store: tags interned, the identifier appended
/// to the author's list, and the record written under its derived identifier.
pub open spec fn store_post(
    m: RegistryModel,
    author: u64,
    payload: Seq<u8>,
    tags: Seq<Seq<u8>>,
) -> RegistryModel {
    let refs = tag_ids_of(tags);
    let vid = vector_id_of(payload, author, refs);
    RegistryModel {
        max_vectors: m.max_vectors,
        max_vector_length: m.max_vector_length,
        max_tag_length: m.max_tag_length,
        max_tags_per_vector: m.max_tags_per_vector,
        vectors: m.vectors.insert(vid, WeightDataModel { payload, author, tag_refs: refs }),
        tags: tags_after(m.tags, tags),
        author_vectors: m.author_vectors.insert(author, author_list_after(m, author, vid)),
    }
}

/// The notification an accepted store emits; it depends on the request
/// alone, never on the prior state.
pub open spec fn store_event(author: u64, payload: Seq<u8>, tags: Seq<Seq<u8>>) -> EventModel {
    EventModel::VectorStored { vector_id: vector_id_of(payload, author, tag_ids_of(tags)), author }
}

/// A tag lookup succeeds exactly when the digest of its content is a key of
/// the tag store.
pub open spec fn tag_known(m: RegistryModel, tag: Seq<u8>) -> bool {
    m.tags.dom().contains(tag_id_of(tag))
}

/// An author lookup succeeds exactly when the author index has an entry.
pub open spec fn author_known(m: RegistryModel, author: u64) -> bool {
    m.author_vectors.dom().contains(author)
}

/// The content store after removing each listed identifier in order;
/// identifiers that are absent leave it unchanged.
pub open spec fn vectors_after_prune(
    vs: Map<Seq<u8>, WeightDataModel>,
    ids: Seq<Seq<u8>>,
) -> Map<Seq<u8>, WeightDataModel>
    decreases ids.len(),
{
    if ids.len() == 0 {
        vs
    } else {
        vectors_after_prune(vs, ids.drop_last()).remove(ids.last())
    }
}

/// How many of the listed identifiers actually hit a stored record, a
/// duplicate counting only on its first hit.
pub open spec fn prune_count(vs: Map<Seq<u8>, WeightDataModel>, ids: Seq<Seq<u8>>) -> nat
    decreases ids.len(),
{
    if ids.len() == 0 {
        0
    } else {
        prune_count(vs, ids.drop_last()) + (if vectors_after_prune(
            vs,
            ids.drop_last(),
        ).dom().contains(ids.last()) {
            1nat
        } else {
            0nat
        })
    }
}

/// The state after a prune: only the content store changes; the tag store
/// and the author index keep every entry.
pub open spec fn prune_post(m: RegistryModel, ids: Seq<Seq<u8>>) -> RegistryModel {
    RegistryModel {
        max_vectors: m.max_vectors,
        max_vector_length: m.max_vector_length,
        max_tag_length: m.max_tag_length,
        max_tags_per_vector: m.max_tags_per_vector,
        vectors: vectors_after_prune(m.vectors, ids),
        tags: m.tags,
        author_vectors: m.author_vectors,
    }
}

/// The bounded-size invariants on every stored field.
pub open spec fn registry_inv(m: RegistryModel) -> bool {
    &&& forall|id: Seq<u8>| #[trigger] m.vectors.dom().contains(id) ==> {
        &&& m.vectors[id].payload.len() <= m.max_vector_length
        &&& m.vectors[id].tag_refs.len() <= m.max_tags_per_vector
    }
    &&& forall|id: Seq<u8>| #[trigger] m.tags.dom().contains(id)
        ==> m.tags[id].len() <= m.max_tag_length
    &&& forall|a: u64| #[trigger] m.author_vectors.dom().contains(a)
        ==> m.author_vectors[a].len() <= m.max_vectors
}

} // verus!
