//! The registry's laws: properties that relate several operations, proved
//! against the transition functions that the operation contracts use.

use vstd::prelude::*;
use crate::hashing::{tag_id_of, tag_ids_of, vector_id_of};
use crate::model::{
    author_ok, payload_ok, prune_count, prune_post, registry_inv, store_accepts, store_error,
    store_post, tag_known, tags_after, tags_ok, vectors_after_prune, RegistryModel,
};
use crate::pallet::Error;
use crate::record::WeightDataModel;

verus! {

/// Determinism: the identifier a store derives depends on the stored tuple
/// alone, never on the registry's prior state, so storing byte-identical
/// content twice derives the same identifier both times.
pub proof fn lemma_store_id_deterministic(
    p1: Seq<u8>,
    a1: u64,
    t1: Seq<Seq<u8>>,
    p2: Seq<u8>,
    a2: u64,
    t2: Seq<Seq<u8>>,
)
    requires
        p1 == p2,
        a1 == a2,
        t1 == t2,
    ensures
        vector_id_of(p1, a1, tag_ids_of(t1)) == vector_id_of(p2, a2, tag_ids_of(t2)),
{
}

/// Bound enforcement: a payload over the bound is rejected with
/// `InvalidVectorData`; one at the bound is accepted whenever the other
/// validation steps pass.
pub proof fn lemma_payload_bound(m: RegistryModel, author: u64, payload: Seq<u8>, tags: Seq<Seq<u8>>)
    ensures
        payload.len() > m.max_vector_length ==> !store_accepts(m, author, payload, tags)
            && store_error(m, author, payload, tags) == Error::InvalidVectorData,
        payload.len() <= m.max_vector_length && tags_ok(m, tags) && author_ok(m, author)
            ==> store_accepts(m, author, payload, tags),
{
}

/// A key is in the tag store after interning a batch exactly when it was
/// there before or is the identifier of a tag in the batch.
pub proof fn lemma_tags_after_contains(tm: Map<Seq<u8>, Seq<u8>>, tags: Seq<Seq<u8>>, k: Seq<u8>)
    ensures
        tags_after(tm, tags).dom().contains(k) <==> (tm.dom().contains(k) || exists|i: int|
            0 <= i < tags.len() && tag_id_of(#[trigger] tags[i]) == k),
    decreases tags.len(),
{
    if tags.len() > 0 {
        lemma_tags_after_contains(tm, tags.drop_last(), k);
        if tag_id_of(tags.last()) == k {
            assert(tag_id_of(tags[tags.len() - 1]) == k);
        } else if tags_after(tm, tags).dom().contains(k) {
            if !tm.dom().contains(k) {
                let i = choose|i: int|
                    0 <= i < tags.drop_last().len() && tag_id_of(#[trigger] tags.drop_last()[i])
                        == k;
                assert(tag_id_of(tags[i]) == k);
            }
        } else {
            assert forall|i: int| 0 <= i < tags.len() implies tag_id_of(#[trigger] tags[i]) != k by {
                if i < tags.len() - 1 {
                    assert(tags.drop_last()[i] == tags[i]);
                }
            }
        }
    }
}

/// Every entry of the tag store after interning a batch either survives
/// from before or holds the content of some tag of the batch.
pub proof fn lemma_tags_after_origin(tm: Map<Seq<u8>, Seq<u8>>, tags: Seq<Seq<u8>>, k: Seq<u8>)
    requires
        tags_after(tm, tags).dom().contains(k),
    ensures
        (tm.dom().contains(k) && tags_after(tm, tags)[k] == tm[k]) || (exists|i: int|
            0 <= i < tags.len() && tags_after(tm, tags)[k] == #[trigger] tags[i]),
    decreases tags.len(),
{
    if tags.len() > 0 {
        if tag_id_of(tags.last()) == k {
            assert(tags_after(tm, tags)[k] == tags[tags.len() - 1]);
        } else {
            lemma_tags_after_origin(tm, tags.drop_last(), k);
            if !(tm.dom().contains(k) && tags_after(tm, tags)[k] == tm[k]) {
                let i = choose|i: int|
                    0 <= i < tags.drop_last().len() && tags_after(tm, tags.drop_last())[k]
                        == #[trigger] tags.drop_last()[i];
                assert(tags_after(tm, tags)[k] == tags[i]);
            }
        }
    }
}

/// Idempotent tag interning: after two stores whose tag lists both carry
/// the tag, the tag store has an entry for the tag's identifier, and its
/// domain holds nothing beyond the old keys and the identifiers of the two
/// batches — the shared tag contributes a single, shared entry.
pub proof fn lemma_idempotent_tag_interning(
    m: RegistryModel,
    a1: u64,
    p1: Seq<u8>,
    t1: Seq<Seq<u8>>,
    a2: u64,
    p2: Seq<u8>,
    t2: Seq<Seq<u8>>,
    tag: Seq<u8>,
)
    requires
        t1.contains(tag),
        t2.contains(tag),
    ensures
        ({
            let m2 = store_post(store_post(m, a1, p1, t1), a2, p2, t2);
            &&& m2.tags.dom().contains(tag_id_of(tag))
            &&& m2.tags.dom() =~= m.tags.dom() + tag_ids_of(t1).to_set() + tag_ids_of(t2).to_set()
        }),
{
    let m1 = store_post(m, a1, p1, t1);
    let m2 = store_post(m1, a2, p2, t2);
    let i2 = choose|i: int| 0 <= i < t2.len() && t2[i] == tag;
    lemma_tags_after_contains(m1.tags, t2, tag_id_of(tag));
    assert(tag_id_of(t2[i2]) == tag_id_of(tag));
    assert forall|k: Seq<u8>| #[trigger] m2.tags.dom().contains(k) implies (m.tags.dom().contains(
        k,
    ) || tag_ids_of(t1).to_set().contains(k) || tag_ids_of(t2).to_set().contains(k)) by {
        lemma_tags_after_contains(m1.tags, t2, k);
        lemma_tags_after_contains(m.tags, t1, k);
        if !m.tags.dom().contains(k) {
            if exists|i: int| 0 <= i < t1.len() && tag_id_of(#[trigger] t1[i]) == k {
                let i = choose|i: int| 0 <= i < t1.len() && tag_id_of(#[trigger] t1[i]) == k;
                assert(tag_ids_of(t1)[i] == k);
                assert(tag_ids_of(t1).contains(k));
            } else {
                let i = choose|i: int| 0 <= i < t2.len() && tag_id_of(#[trigger] t2[i]) == k;
                assert(tag_ids_of(t2)[i] == k);
                assert(tag_ids_of(t2).contains(k));
            }
        }
    }
    assert forall|k: Seq<u8>| (m.tags.dom().contains(k) || tag_ids_of(t1).to_set().contains(k)
        || tag_ids_of(t2).to_set().contains(k)) implies #[trigger] m2.tags.dom().contains(k) by {
        lemma_tags_after_contains(m1.tags, t2, k);
        lemma_tags_after_contains(m.tags, t1, k);
        if tag_ids_of(t1).to_set().contains(k) {
            let i = choose|i: int| 0 <= i < tag_ids_of(t1).len() && tag_ids_of(t1)[i] == k;
            assert(tag_id_of(t1[i]) == k);
        }
        if tag_ids_of(t2).to_set().contains(k) {
            let i = choose|i: int| 0 <= i < tag_ids_of(t2).len() && tag_ids_of(t2)[i] == k;
            assert(tag_id_of(t2[i]) == k);
        }
    }
}

/// Lookup correctness: after a store whose tag list carries the tag, a
/// lookup by that tag succeeds.
pub proof fn lemma_lookup_after_store(
    m: RegistryModel,
    author: u64,
    payload: Seq<u8>,
    tags: Seq<Seq<u8>>,
    tag: Seq<u8>,
)
    requires
        tags.contains(tag),
    ensures
        tag_known(store_post(m, author, payload, tags), tag),
{
    let i = choose|i: int| 0 <= i < tags.len() && tags[i] == tag;
    lemma_tags_after_contains(m.tags, tags, tag_id_of(tag));
    assert(tag_id_of(tags[i]) == tag_id_of(tag));
}

/// A key survives a prune exactly when it was present and is not among the
/// pruned identifiers; a surviving key keeps its record.
pub proof fn lemma_after_prune_contains(
    vs: Map<Seq<u8>, WeightDataModel>,
    ids: Seq<Seq<u8>>,
    k: Seq<u8>,
)
    ensures
        vectors_after_prune(vs, ids).dom().contains(k) <==> (vs.dom().contains(k) && !ids.contains(
            k,
        )),
        vectors_after_prune(vs, ids).dom().contains(k) ==> vectors_after_prune(vs, ids)[k]
            == vs[k],
    decreases ids.len(),
{
    if ids.len() > 0 {
        lemma_after_prune_contains(vs, ids.drop_last(), k);
        if ids.last() == k {
            assert(ids.contains(k));
        } else if ids.drop_last().contains(k) {
            let i = choose|i: int| 0 <= i < ids.drop_last().len() && ids.drop_last()[i] == k;
            assert(ids[i] == k);
            assert(ids.contains(k));
        } else if ids.contains(k) {
            let i = choose|i: int| 0 <= i < ids.len() && ids[i] == k;
            if i < ids.len() - 1 {
                assert(ids.drop_last()[i] == k);
            }
        }
    }
}

/// Pruning a set of identifiers that none of the stored records carries
/// removes nothing.
pub proof fn lemma_prune_count_zero(vs: Map<Seq<u8>, WeightDataModel>, ids: Seq<Seq<u8>>)
    requires
        forall|i: int| 0 <= i < ids.len() ==> !vs.dom().contains(#[trigger] ids[i]),
    ensures
        prune_count(vs, ids) == 0,
    decreases ids.len(),
{
    if ids.len() > 0 {
        lemma_prune_count_zero(vs, ids.drop_last());
        lemma_after_prune_contains(vs, ids.drop_last(), ids.last());
        assert(!vs.dom().contains(ids[ids.len() - 1]));
    }
}

/// How many of the listed identifiers are keys of the content store.
pub open spec fn present_count(vs: Map<Seq<u8>, WeightDataModel>, ids: Seq<Seq<u8>>) -> nat
    decreases ids.len(),
{
    if ids.len() == 0 {
        0
    } else {
        present_count(vs, ids.drop_last()) + (if vs.dom().contains(ids.last()) {
            1nat
        } else {
            0nat
        })
    }
}

/// Prune count accuracy: when no identifier repeats, a prune counts exactly
/// the identifiers that hit a stored record.
pub proof fn lemma_prune_count_accurate(vs: Map<Seq<u8>, WeightDataModel>, ids: Seq<Seq<u8>>)
    requires
        forall|i: int, j: int| 0 <= i < j < ids.len() ==> ids[i] != ids[j],
    ensures
        prune_count(vs, ids) == present_count(vs, ids),
    decreases ids.len(),
{
    if ids.len() > 0 {
        let dl = ids.drop_last();
        assert forall|i: int, j: int| 0 <= i < j < dl.len() implies dl[i] != dl[j] by {
            assert(dl[i] == ids[i] && dl[j] == ids[j]);
        }
        lemma_prune_count_accurate(vs, dl);
        lemma_after_prune_contains(vs, dl, ids.last());
        if dl.contains(ids.last()) {
            let i = choose|i: int| 0 <= i < dl.len() && dl[i] == ids.last();
            assert(ids[i] == ids[ids.len() - 1]);
        }
    }
}

/// Prune count accuracy for a repeated prune: pruning the same identifiers
/// again finds nothing left, so the second count is zero.
pub proof fn lemma_prune_twice(m: RegistryModel, ids: Seq<Seq<u8>>)
    ensures
        prune_count(prune_post(m, ids).vectors, ids) == 0,
{
    let vs1 = prune_post(m, ids).vectors;
    assert forall|i: int| 0 <= i < ids.len() implies !vs1.dom().contains(#[trigger] ids[i]) by {
        lemma_after_prune_contains(m.vectors, ids, ids[i]);
        assert(ids.contains(ids[i]));
    }
    lemma_prune_count_zero(vs1, ids);
}

/// An accepted store preserves every bounded-size invariant.
pub proof fn lemma_store_preserves_inv(
    m: RegistryModel,
    author: u64,
    payload: Seq<u8>,
    tags: Seq<Seq<u8>>,
)
    requires
        registry_inv(m),
        store_accepts(m, author, payload, tags),
    ensures
        registry_inv(store_post(m, author, payload, tags)),
{
    let m1 = store_post(m, author, payload, tags);
    assert forall|id: Seq<u8>| #[trigger] m1.tags.dom().contains(id) implies m1.tags[id].len()
        <= m1.max_tag_length by {
        lemma_tags_after_origin(m.tags, tags, id);
    }
}

/// A prune preserves every bounded-size invariant: it only removes records.
pub proof fn lemma_prune_preserves_inv(m: RegistryModel, ids: Seq<Seq<u8>>)
    requires
        registry_inv(m),
    ensures
        registry_inv(prune_post(m, ids)),
{
    let m1 = prune_post(m, ids);
    assert forall|id: Seq<u8>| #[trigger] m1.vectors.dom().contains(id) implies {
        &&& m1.vectors[id].payload.len() <= m1.max_vector_length
        &&& m1.vectors[id].tag_refs.len() <= m1.max_tags_per_vector
    } by {
        lemma_after_prune_contains(m.vectors, ids, id);
    }
}

} // verus!
