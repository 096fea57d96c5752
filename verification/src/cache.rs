//! Content-derived identifiers.
//!
//! A stored snippet is keyed by a hash of its displayed text, rendered as a
//! UUID: identical content always maps to the same identifier, so re-inserting
//! the same text overwrites the same point.

use vstd::prelude::*;
use vstd::string::StringSliceAdditionalSpecFns;

verus! {

/// The digest that hashing `data` yields; a function of the bytes alone.
pub uninterp spec fn blake3_of(data: Seq<u8>) -> Seq<u8>;

/// The 32 lower-case hexadecimal digits of `b`: two per byte in order, high
/// nibble first.
pub open spec fn spec_hex_of_bytes(b: Seq<u8>) -> Seq<char>
    decreases b.len(),
{
    if b.len() == 0 {
        Seq::empty()
    } else {
        spec_hex_of_bytes(b.drop_last()) + seq![
            crate::json::spec_hex_digit(b.last() as int / 16),
            crate::json::spec_hex_digit(b.last() as int % 16),
        ]
    }
}

/// The hyphenated text form of the 16-byte identifier `b`: its 32 hex digits
/// with a hyphen after the 8th, 12th, 16th and 20th.
pub open spec fn spec_uuid_text(b: Seq<u8>) -> Seq<char>
    recommends
        b.len() == 16,
{
    let h = spec_hex_of_bytes(b);
    h.subrange(0, 8) + seq!['-'] + h.subrange(8, 12) + seq!['-'] + h.subrange(12, 16) + seq!['-']
        + h.subrange(16, 20) + seq!['-'] + h.subrange(20, 32)
}

proof fn lemma_hex_digit_is_hex(d: int)
    requires
        0 <= d < 16,
    ensures
        crate::payload::is_hex_char(crate::json::spec_hex_digit(d)),
{
    let c = crate::json::spec_hex_digit(d);
    if d < 10 {
        assert(c == ((48 + d) as u8) as char);
    } else {
        assert(c == ((87 + d) as u8) as char);
    }
}

proof fn lemma_hex_of_bytes_wf(b: Seq<u8>)
    ensures
        spec_hex_of_bytes(b).len() == 2 * b.len(),
        forall|i: int|
            0 <= i < 2 * b.len() ==> crate::payload::is_hex_char(
                #[trigger] spec_hex_of_bytes(b)[i],
            ),
    decreases b.len(),
{
    if b.len() > 0 {
        lemma_hex_of_bytes_wf(b.drop_last());
        let h = spec_hex_of_bytes(b);
        let hp = spec_hex_of_bytes(b.drop_last());
        let d1 = b.last() as int / 16;
        let d2 = b.last() as int % 16;
        lemma_hex_digit_is_hex(d1);
        lemma_hex_digit_is_hex(d2);
        assert forall|i: int| 0 <= i < 2 * b.len() implies crate::payload::is_hex_char(
            #[trigger] h[i],
        ) by {
            if i < 2 * (b.len() - 1) {
                assert(h[i] == hp[i]);
            } else if i == 2 * b.len() - 2 {
                assert(h[i] == crate::json::spec_hex_digit(d1));
            } else {
                assert(h[i] == crate::json::spec_hex_digit(d2));
            }
        }
    }
}

/// The hyphenated rendering of 16 bytes always has the identifier shape.
proof fn lemma_uuid_text_wf(b: Seq<u8>)
    requires
        b.len() == 16,
    ensures
        crate::payload::is_uuid_text(spec_uuid_text(b)),
{
    lemma_hex_of_bytes_wf(b);
    let h = spec_hex_of_bytes(b);
    let s = spec_uuid_text(b);
    assert(s.len() == 36);
    assert forall|i: int|
        0 <= i < 36 implies (if i == 8 || i == 13 || i == 18 || i == 23 {
        #[trigger] s[i] == '-'
    } else {
        crate::payload::is_hex_char(s[i])
    }) by {
        if i < 8 {
            assert(s[i] == h[i]);
        } else if i == 8 {
            assert(s[i] == '-');
        } else if i < 13 {
            assert(s[i] == h[i - 1]);
        } else if i == 13 {
            assert(s[i] == '-');
        } else if i < 18 {
            assert(s[i] == h[i - 2]);
        } else if i == 18 {
            assert(s[i] == '-');
        } else if i < 23 {
            assert(s[i] == h[i - 3]);
        } else if i == 23 {
            assert(s[i] == '-');
        } else {
            assert(s[i] == h[i - 4]);
        }
    }
}

/// Relies on `blake3::hash`: a pure function of the input bytes returning a
/// 32-byte digest.
#[verifier::external_body]
fn blake3_digest(data: &[u8]) -> (r: Vec<u8>)
    ensures
        r@ == blake3_of(data@),
        r@.len() == 32,
{
    blake3::hash(data).as_bytes().to_vec()
}

/// Relies on `uuid::Uuid::from_bytes` and the `Display` of `Uuid`, which
/// writes the hyphenated form: the two lower-case hex digits of each byte in
/// order, high nibble first, with a hyphen after the 8th, 12th, 16th and
/// 20th digit — exactly [`spec_uuid_text`].
#[verifier::external_body]
fn uuid_hyphenated(bytes: &Vec<u8>) -> (r: String)
    requires
        bytes@.len() == 16,
    ensures
        r@ == spec_uuid_text(bytes@),
{
    let mut b = [0u8; 16];
    b.copy_from_slice(bytes.as_slice());
    uuid::Uuid::from_bytes(b).to_string()
}

/// The identifier that the content `s` (as UTF-8 bytes) maps to.
pub open spec fn spec_cache_key(bytes: Seq<u8>) -> Seq<char> {
    spec_uuid_text(blake3_of(bytes).subrange(16, 32))
}

/// Generate a content identifier from the text to be embedded: the second
/// half of its digest, rendered as a UUID.
pub fn cache_key(data: &str) -> (r: String)
    ensures
        r@ == spec_cache_key(data.spec_bytes()),
        crate::payload::is_uuid_text(r@),
        r@.len() == 36,
{
    let digest = blake3_digest(data.as_bytes());
    let mut tail: Vec<u8> = Vec::new();
    let mut i: usize = 16;
    while i < 32
        invariant
            digest@.len() == 32,
            16 <= i <= 32,
            tail@ == digest@.subrange(16, i as int),
        decreases 32 - i,
    {
        tail.push(digest[i]);
        assert(tail@ =~= digest@.subrange(16, i + 1 as int));
        i = i + 1;
    }
    proof {
        lemma_uuid_text_wf(tail@);
    }
    uuid_hyphenated(&tail)
}

/// The identifier is deterministic and pure: the same content always maps to
/// the same identifier, whatever the call that computes it.
pub proof fn lemma_cache_key_deterministic(a: Seq<u8>, b: Seq<u8>)
    requires
        a == b,
    ensures
        spec_cache_key(a) == spec_cache_key(b),
{
}

} // verus!
