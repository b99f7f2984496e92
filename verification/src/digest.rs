//! Content addressing for proposed blocks: a canonical, unambiguous byte
//! encoding of `(parent_id, payload, height)`, hashed to a hex identifier.

use vstd::prelude::*;
use vstd::bytes::{spec_u64_to_le_bytes, u64_to_le_bytes};
use vstd::utf8::encode_utf8;

verus! {

/// The canonical byte encoding that is hashed to form a block identifier.
///
/// Every variable-length field carries an explicit length prefix, and the
/// parent is tagged, so that differently-shaped inputs can never encode to
/// the same byte sequence.
pub open spec fn spec_encode_block_content(
    parent: Option<Seq<char>>,
    payload: Seq<u8>,
    height: u64,
) -> Seq<u8> {
    (match parent {
        Option::None => seq![0u8],
        Option::Some(p) => seq![1u8] + spec_u64_to_le_bytes(encode_utf8(p).len() as u64)
            + encode_utf8(p),
    }) + spec_u64_to_le_bytes(payload.len() as u64) + payload + spec_u64_to_le_bytes(height)
}

/// The hex identifier that the hash assigns to a canonical encoding.
pub uninterp spec fn digest_of(content: Seq<u8>) -> Seq<char>;

/// Whether `id` is the digest of some byte content: true of every
/// identifier the engine ever stores.
pub open spec fn is_digest(id: Seq<char>) -> bool {
    exists|content: Seq<u8>| id == digest_of(content)
}

/// The identifier of a block with the given parent, payload and height:
/// a function of those three values alone.
pub open spec fn spec_block_id(
    parent: Option<Seq<char>>,
    payload: Seq<u8>,
    height: u64,
) -> Seq<char> {
    digest_of(spec_encode_block_content(parent, payload, height))
}

/// Relies on `blake3::hash` and on `blake3::Hash`'s display form: the digest
/// is a function of the input bytes alone, rendered as 64 hex characters.
#[verifier::external_body]
fn blake3_hex_digest(content: &Vec<u8>) -> (r: String)
    ensures
        r@ == digest_of(content@),
        r@.len() == 64,
{
    blake3::hash(content.as_slice()).to_string()
}

/// Builds the canonical encoding of `(parent_id, payload, height)`.
pub fn encode_block_content(parent_id: &Option<String>, payload: &Vec<u8>, height: u64) -> (r: Vec<
    u8,
>)
    ensures
        r@ == spec_encode_block_content(parent_id.deep_view(), payload@, height),
{
    let mut out: Vec<u8> = Vec::new();
    match parent_id {
        Option::None => {
            out.push(0u8);
        },
        Option::Some(p) => {
            out.push(1u8);
            let pb = p.as_str().as_bytes();
            let mut len_bytes = u64_to_le_bytes(pb.len() as u64);
            out.append(&mut len_bytes);
            out.extend_from_slice(pb);
        },
    }
    let mut payload_len_bytes = u64_to_le_bytes(payload.len() as u64);
    out.append(&mut payload_len_bytes);
    out.extend_from_slice(payload.as_slice());
    let mut height_bytes = u64_to_le_bytes(height);
    out.append(&mut height_bytes);
    proof {
        assert(out@ =~= spec_encode_block_content(parent_id.deep_view(), payload@, height));
    }
    out
}

/// Computes the content-addressed identifier of a block: the hash of the
/// canonical encoding, as 64 hex characters.
pub fn block_id_for(parent_id: &Option<String>, payload: &Vec<u8>, height: u64) -> (r: String)
    ensures
        r@ == spec_block_id(parent_id.deep_view(), payload@, height),
        r@.len() == 64,
{
    let content = encode_block_content(parent_id, payload, height);
    blake3_hex_digest(&content)
}

} // verus!

