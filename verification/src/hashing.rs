//! Identifier derivation: every identifier in the registry is the Blake2b-256
//! digest of some byte string.

use vstd::prelude::*;

verus! {

/// The 32-byte Blake2b-256 digest of a byte string, as an abstract function.
///
/// The digest itself is far too involved to restate; all the registry needs
/// is that it is a function of the input bytes alone.
pub uninterp spec fn digest_of(bytes: Seq<u8>) -> Seq<u8>;

/// Relies on `frame_support::sp_runtime::traits::BlakeTwo256::hash`
/// (Blake2b-256): the returned 32-byte digest depends on the input bytes alone.
#[verifier::external_body]
fn blake2_256_of(data: &Vec<u8>) -> (r: Vec<u8>)
    ensures
        r@ == digest_of(data@),
        r@.len() == 32,
{
    <frame_support::sp_runtime::traits::BlakeTwo256 as frame_support::sp_runtime::traits::Hash>
        ::hash(data.as_slice()).0.to_vec()
}

/// A tag's identifier: the digest of the raw tag bytes.
pub open spec fn tag_id_of(tag: Seq<u8>) -> Seq<u8> {
    digest_of(tag)
}

/// Derive a tag identifier from the tag's content.
pub fn tag_id(tag: &Vec<u8>) -> (r: Vec<u8>)
    ensures
        r@ == tag_id_of(tag@),
        r@.len() == 32,
{
    blake2_256_of(tag)
}

/// A 64-bit value in little-endian byte order.
pub open spec fn u64_bytes(x: u64) -> Seq<u8> {
    seq![
        (x % 256) as u8,
        ((x / 256) % 256) as u8,
        ((x / 0x10000) % 256) as u8,
        ((x / 0x1000000) % 256) as u8,
        ((x / 0x100000000) % 256) as u8,
        ((x / 0x10000000000) % 256) as u8,
        ((x / 0x1000000000000) % 256) as u8,
        ((x / 0x100000000000000) % 256) as u8,
    ]
}

/// A byte string framed by its length, so that distinct strings stay
/// distinct inside a larger encoding.
pub open spec fn bytes_block(b: Seq<u8>) -> Seq<u8> {
    u64_bytes(b.len() as u64) + b
}

/// The concatenation of the framed tag identifiers.
pub open spec fn tag_refs_block(refs: Seq<Seq<u8>>) -> Seq<u8>
    decreases refs.len(),
{
    if refs.len() == 0 {
        Seq::empty()
    } else {
        tag_refs_block(refs.drop_last()) + bytes_block(refs.last())
    }
}

/// The serialization of a full record tuple.
pub open spec fn record_bytes(payload: Seq<u8>, author: u64, refs: Seq<Seq<u8>>) -> Seq<u8> {
    bytes_block(payload) + u64_bytes(author) + u64_bytes(refs.len() as u64) + tag_refs_block(refs)
}

/// A record's identifier: the digest of the serialized record tuple.
pub open spec fn vector_id_of(payload: Seq<u8>, author: u64, refs: Seq<Seq<u8>>) -> Seq<u8> {
    digest_of(record_bytes(payload, author, refs))
}

/// The identifiers of a sequence of tags, in submission order.
pub open spec fn tag_ids_of(tags: Seq<Seq<u8>>) -> Seq<Seq<u8>> {
    tags.map_values(|t: Seq<u8>| tag_id_of(t))
}

fn push_u64(out: &mut Vec<u8>, x: u64)
    ensures
        final(out)@ == old(out)@ + u64_bytes(x),
{
    out.push((x % 256) as u8);
    out.push(((x / 256) % 256) as u8);
    out.push(((x / 0x10000) % 256) as u8);
    out.push(((x / 0x1000000) % 256) as u8);
    out.push(((x / 0x100000000) % 256) as u8);
    out.push(((x / 0x10000000000) % 256) as u8);
    out.push(((x / 0x1000000000000) % 256) as u8);
    out.push(((x / 0x100000000000000) % 256) as u8);
    proof {
        assert(out@ =~= old(out)@ + u64_bytes(x));
    }
}

fn push_bytes(out: &mut Vec<u8>, b: &Vec<u8>)
    ensures
        final(out)@ == old(out)@ + bytes_block(b@),
{
    push_u64(out, b.len() as u64);
    out.extend_from_slice(b.as_slice());
    proof {
        assert(out@ =~= old(out)@ + bytes_block(b@));
    }
}

/// Derive a record identifier from the record's fields.
pub fn vector_id(payload: &Vec<u8>, author: u64, tag_refs: &Vec<Vec<u8>>) -> (r: Vec<u8>)
    ensures
        r@ == vector_id_of(payload@, author, tag_refs.deep_view()),
        r@.len() == 32,
{
    let ghost refs = tag_refs.deep_view();
    let mut buf: Vec<u8> = Vec::new();
    push_bytes(&mut buf, payload);
    push_u64(&mut buf, author);
    push_u64(&mut buf, tag_refs.len() as u64);
    let ghost prefix = buf@;
    let n = tag_refs.len();
    let mut i: usize = 0;
    while i < n
        invariant
            n == tag_refs@.len(),
            refs == tag_refs.deep_view(),
            0 <= i <= n,
            buf@ == prefix + tag_refs_block(refs.take(i as int)),
        decreases n - i,
    {
        push_bytes(&mut buf, &tag_refs[i]);
        proof {
            assert(refs.take(i + 1).drop_last() =~= refs.take(i as int));
            assert(refs.take(i + 1).last() == refs[i as int]);
            assert(tag_refs@[i as int].deep_view() =~= tag_refs@[i as int]@);
            assert(buf@ =~= prefix + tag_refs_block(refs.take(i + 1)));
        }
        i += 1;
    }
    proof {
        assert(refs.take(n as int) =~= refs);
        assert(buf@ =~= record_bytes(payload@, author, refs));
    }
    blake2_256_of(&buf)
}

} // verus!
