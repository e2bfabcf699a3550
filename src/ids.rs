//! Content-addressed document ids: the same content always names the same
//! document, so writing it again updates that document instead of adding one.
use vstd::prelude::*;
use vstd::utf8::encode_utf8;
use sha2::Digest;

verus! {

/// The SHA-256 digest of a byte sequence.
pub uninterp spec fn sha256_of(b: Seq<u8>) -> Seq<u8>;

/// Relies on `sha2::Sha256::digest`: a 32-byte digest that depends on the
/// input bytes alone.
#[verifier::external_body]
fn sha256(b: &[u8]) -> (r: Vec<u8>)
    ensures
        r@ == sha256_of(b@),
        r@.len() == 32,
{
    sha2::Sha256::digest(b).to_vec()
}

/// The lowercase hexadecimal digit for `n` in `0..16`.
pub open spec fn hex_digit(n: int) -> char {
    if n < 10 {
        crate::decimal::digit_char(n)
    } else if n == 10 {
        'a'
    } else if n == 11 {
        'b'
    } else if n == 12 {
        'c'
    } else if n == 13 {
        'd'
    } else if n == 14 {
        'e'
    } else {
        'f'
    }
}

/// Two lowercase hexadecimal digits per byte, high half first.
pub open spec fn hex_text(b: Seq<u8>) -> Seq<char>
    decreases b.len(),
{
    if b.len() == 0 {
        Seq::empty()
    } else {
        hex_text(b.drop_last()) + seq![hex_digit(b.last() as int / 16), hex_digit(b.last() as int % 16)]
    }
}

/// Relies on `hex::encode`: two lowercase digits per byte, high half first.
#[verifier::external_body]
fn to_hex(b: &[u8]) -> (r: String)
    ensures
        r@ == hex_text(b@),
{
    hex::encode(b)
}

proof fn lemma_hex_text_len(b: Seq<u8>)
    ensures
        hex_text(b).len() == 2 * b.len(),
    decreases b.len(),
{
    if b.len() > 0 {
        lemma_hex_text_len(b.drop_last());
    }
}

/// The id of the document that holds `seed`: the first ten bytes of the
/// SHA-256 digest of its UTF-8 bytes, in hexadecimal.
pub open spec fn content_id(seed: Seq<char>) -> Seq<char> {
    hex_text(sha256_of(encode_utf8(seed)).subrange(0, 10))
}

/// The content-addressed id of `seed`: twenty hexadecimal digits.
pub fn document_id_from_seed(seed: &str) -> (r: String)
    ensures
        r@ == content_id(seed@),
        r@.len() == 20,
{
    let digest = sha256(seed.as_bytes());
    let mut head: Vec<u8> = Vec::new();
    let mut i: usize = 0;
    while i < 10
        invariant
            digest@.len() == 32,
            i <= 10,
            head@ == digest@.subrange(0, i as int),
        decreases 10 - i,
    {
        head.push(digest[i]);
        i += 1;
        assert(head@ =~= digest@.subrange(0, i as int));
    }
    proof {
        lemma_hex_text_len(head@);
    }
    to_hex(head.as_slice())
}

/// Equal content always gets the same id.
pub proof fn law_content_id_deterministic(a: Seq<char>, b: Seq<char>)
    requires
        a == b,
    ensures
        content_id(a) == content_id(b),
{
}

} // verus!
