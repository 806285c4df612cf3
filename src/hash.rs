use vstd::prelude::*;

verus! {

/// Length in bytes of a digest.
pub const DIGEST_LEN: usize = 32;

/// The BLAKE3 digest of a byte sequence, as a sequence of 32 bytes.
pub uninterp spec fn blake3_of(b: Seq<u8>) -> Seq<u8>;

/// The sixteen lowercase hexadecimal digits, in order.
pub open spec fn hex_digits() -> Seq<char> {
    seq!['0', '1', '2', '3', '4', '5', '6', '7', '8', '9', 'a', 'b', 'c', 'd', 'e', 'f']
}

/// Lowercase hexadecimal encoding: two digits per byte, high nibble first.
pub open spec fn hex_of(b: Seq<u8>) -> Seq<char> {
    Seq::new(
        2 * b.len(),
        |i: int|
            if i % 2 == 0 {
                hex_digits()[b[i / 2] as int / 16]
            } else {
                hex_digits()[b[i / 2] as int % 16]
            },
    )
}

/// Relies on `blake3::hash`: a 32-byte digest that depends on the input bytes alone.
#[verifier::external_body]
fn blake3_hash(b: &[u8]) -> (r: [u8; 32])
    ensures
        r@ == blake3_of(b@),
{
    blake3::hash(b).into()
}

/// Relies on `hex::encode`: two lowercase hexadecimal digits per byte, high nibble first.
#[verifier::external_body]
pub(crate) fn hex_encode(b: &[u8]) -> (r: String)
    ensures
        r@ == hex_of(b@),
{
    hex::encode(b)
}

/// The digest of `b`; it names the chunk `b` in the object store.
pub fn hash_bytes(b: &[u8]) -> (r: [u8; 32])
    ensures
        r@ == blake3_of(b@),
        r@.len() == DIGEST_LEN,
{
    blake3_hash(b)
}

/// The digest of `b` as a lowercase hexadecimal string of 64 characters.
pub fn hash_chunk(b: &[u8]) -> (r: String)
    ensures
        r@ == hex_of(blake3_of(b@)),
        r@.len() == 2 * DIGEST_LEN,
{
    let d = blake3_hash(b);
    hex_encode(&d)
}

/// The digest is a function of the bytes alone: equal inputs, in any call,
/// process or machine, give equal digests.
pub proof fn lemma_digest_deterministic(a: Seq<u8>, b: Seq<u8>)
    requires
        a == b,
    ensures
        blake3_of(a) == blake3_of(b),
{
}

} // verus!
