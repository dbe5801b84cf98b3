//! Digests of create requests. A digest covers the whole request but keeps
//! none of its values.

use vstd::prelude::*;

use crate::json;
use crate::json::{canonicalize, Json, JsonView};
use crate::text::char_vec;

verus! {

/// The compact JSON text of a value, or nothing where it cannot be written.
pub uninterp spec fn json_bytes(value: JsonView) -> Option<Seq<u8>>;

/// Rebuilds a value as `serde_json::Value`, variant by variant. Nothing is
/// claimed of the result; only [`json_to_vec`] reads it.
#[verifier::external_body]
fn json_value(value: &Json) -> serde_json::Value {
    match value {
        Json::Null => serde_json::Value::Null,
        Json::Bool(b) => serde_json::Value::Bool(*b),
        Json::Number(n) => serde_json::Value::Number(n.clone()),
        Json::Text(s) => serde_json::Value::String(s.clone()),
        Json::Array(items) => serde_json::Value::Array(items.iter().map(json_value).collect()),
        Json::Object(fields) => serde_json::Value::Object(
            fields.iter().map(|field| (field.0.clone(), json_value(&field.1))).collect(),
        ),
    }
}

/// Whether two values are written alike: they have the same shape, texts and
/// truth values, and the number at each place has the same text.
pub open spec fn written_alike(a: JsonView, b: JsonView) -> bool
    decreases a,
{
    match (a, b) {
        (JsonView::Null, JsonView::Null) => true,
        (JsonView::Bool(x), JsonView::Bool(y)) => x == y,
        (JsonView::Number(_), JsonView::Number(_)) => json_bytes(a) == json_bytes(b),
        (JsonView::Text(x), JsonView::Text(y)) => x == y,
        (JsonView::Array(x), JsonView::Array(y)) => {
            &&& x.len() == y.len()
            &&& forall|i: int| 0 <= i < x.len() ==> written_alike(#[trigger] x[i], y[i])
        },
        (JsonView::Object(x), JsonView::Object(y)) => {
            &&& x.len() == y.len()
            &&& forall|i: int|
                0 <= i < x.len() ==> (#[trigger] x[i]).0 == y[i].0 && written_alike(x[i].1, y[i].1)
        },
        _ => false,
    }
}

/// Whether a value is its own canonical form.
pub open spec fn is_canonical(value: JsonView) -> bool {
    json::canonical(value) == value
}

/// `serde_json::to_vec` on the value: the bytes that it writes, or its error,
/// depend on what the value holds and on nothing else. JSON text shows the shape
/// of a value: values in canonical form that it writes as the same bytes are
/// written alike part by part. Nothing is claimed of the text of a number.
#[verifier::external_body]
fn json_to_vec(value: &Json) -> (result: Result<Vec<u8>, serde_json::Error>)
    ensures
        match result {
            Ok(bytes) => json_bytes(value@) == Some(bytes@) && forall|other: JsonView| #[trigger]
                json_bytes(other) == Some(bytes@) && is_canonical(other) && is_canonical(value@)
                    ==> written_alike(other, value@),
            Err(_) => json_bytes(value@) is None,
        },
{
    serde_json::to_vec(&json_value(value))
}

/// The SHA-256 hash of a byte string.
pub uninterp spec fn sha256(bytes: Seq<u8>) -> Seq<u8>;

/// `sha2::Sha256::digest`: a hash of 32 bytes, which depends on the input alone.
#[verifier::external_body]
fn sha256_bytes(bytes: &[u8]) -> (hash: Vec<u8>)
    ensures
        hash@ == sha256(bytes@),
        hash@.len() == 32,
{
    <sha2::Sha256 as sha2::Digest>::digest(bytes).to_vec()
}

/// The lower-case hexadecimal digit of a value below sixteen.
pub open spec fn hex_char(value: int) -> char {
    if value < 10 {
        ('0' as int + value) as char
    } else {
        ('a' as int + value - 10) as char
    }
}

/// The lower-case hexadecimal text of a byte string, two digits a byte.
pub open spec fn hex_text(bytes: Seq<u8>) -> Seq<char> {
    Seq::new(
        2 * bytes.len(),
        |i: int|
            if i % 2 == 0 {
                hex_char(bytes[i / 2] as int / 16)
            } else {
                hex_char(bytes[i / 2] as int % 16)
            },
    )
}

/// Whether a character is a lower-case hexadecimal digit.
pub open spec fn is_lower_hex(c: char) -> bool {
    '0' <= c <= '9' || 'a' <= c <= 'f'
}

/// Whether a text is a digest: 64 lower-case hexadecimal digits.
pub open spec fn is_digest(text: Seq<char>) -> bool {
    &&& text.len() == 64
    &&& forall|i: int| 0 <= i < text.len() ==> is_lower_hex(#[trigger] text[i])
}

/// Different values have different digits.
pub proof fn lemma_hex_char_injective(a: int, b: int)
    requires
        0 <= a < 16,
        0 <= b < 16,
        hex_char(a) == hex_char(b),
    ensures
        a == b,
{
}

proof fn lemma_hex_text_injective(a: Seq<u8>, b: Seq<u8>)
    requires
        hex_text(a) == hex_text(b),
    ensures
        a == b,
{
    assert(hex_text(a).len() == 2 * a.len() && hex_text(b).len() == 2 * b.len());
    assert forall|i: int| 0 <= i < a.len() implies a[i] == b[i] by {
        assert((2 * i) % 2 == 0 && (2 * i) / 2 == i);
        assert((2 * i + 1) % 2 == 1 && (2 * i + 1) / 2 == i);
        assert(hex_text(a)[2 * i] == hex_char(a[i] as int / 16));
        assert(hex_text(b)[2 * i] == hex_char(b[i] as int / 16));
        assert(hex_text(a)[2 * i + 1] == hex_char(a[i] as int % 16));
        assert(hex_text(b)[2 * i + 1] == hex_char(b[i] as int % 16));
        lemma_hex_char_injective(a[i] as int / 16, b[i] as int / 16);
        lemma_hex_char_injective(a[i] as int % 16, b[i] as int % 16);
    }
    assert(a =~= b);
}

fn hex_digit(value: u8) -> (c: char)
    requires
        value < 16,
    ensures
        c == hex_char(value as int),
        is_lower_hex(c),
{
    if value < 10 {
        (48u8 + value) as char
    } else {
        (87u8 + value) as char
    }
}

/// Hashes a byte string with SHA-256 and renders the hash in lower-case
/// hexadecimal.
pub fn sha256_hex(bytes: &[u8]) -> (text: String)
    ensures
        text@ == hex_text(sha256(bytes@)),
        is_digest(text@),
{
    let hash = sha256_bytes(bytes);
    let mut text = String::new();
    let mut i: usize = 0;
    while i < hash.len()
        invariant
            i <= hash.len(),
            hash@.len() == 32,
            text@ == hex_text(hash@).take(2 * i),
            forall|j: int| 0 <= j < text@.len() ==> is_lower_hex(#[trigger] text@[j]),
        decreases hash.len() - i,
    {
        let byte = hash[i];
        text.push(hex_digit(byte / 16));
        text.push(hex_digit(byte % 16));
        i = i + 1;
        assert(text@ =~= hex_text(hash@).take(2 * i));
    }
    assert(hex_text(hash@).take(64) =~= hex_text(hash@));
    text
}

/// Tells whether a text is a digest.
pub fn valid_digest(text: &str) -> (valid: bool)
    ensures
        valid == is_digest(text@),
{
    let chars = char_vec(text);
    if chars.len() != 64 {
        return false;
    }
    let mut i: usize = 0;
    while i < chars.len()
        invariant
            i <= chars.len(),
            chars@ == text@,
            forall|j: int| 0 <= j < i ==> is_lower_hex(#[trigger] text@[j]),
        decreases chars.len() - i,
    {
        let c = chars[i];
        if !(('0' <= c && c <= '9') || ('a' <= c && c <= 'f')) {
            assert(!is_lower_hex(text@[i as int]));
            return false;
        }
        i = i + 1;
    }
    true
}

/// A request could not be written as JSON.
#[derive(Debug, Clone, Copy, PartialEq, Eq, Structural)]
pub struct DigestError;

/// The digest of a request, or nothing where the request cannot be written as
/// JSON. It reads the canonical form only.
pub open spec fn digest_of(value: JsonView) -> Option<Seq<char>> {
    match json_bytes(json::canonical(value)) {
        Some(bytes) => Some(hex_text(sha256(bytes))),
        None => None,
    }
}

/// Whether two byte strings are a collision of the hash.
pub open spec fn is_collision(a: Seq<u8>, b: Seq<u8>) -> bool {
    a != b && sha256(a) == sha256(b)
}

/// The bytes that the digest of a request is the hash of.
pub open spec fn hashed(value: JsonView) -> Seq<u8> {
    json_bytes(json::canonical(value))->0
}

/// Requests with one digest are hashed from the same bytes, unless those bytes
/// are a collision of the hash.
pub proof fn law_one_digest_means_one_text(a: JsonView, b: JsonView)
    requires
        digest_of(a) is Some,
        digest_of(a) == digest_of(b),
    ensures
        hashed(a) == hashed(b) || is_collision(hashed(a), hashed(b)),
{
    lemma_hex_text_injective(sha256(hashed(a)), sha256(hashed(b)));
}

/// Hashes the complete request without retaining its environment values or
/// extension secrets. The order of object fields is irrelevant; the order of
/// arrays is not. Collisions of the hash aside, a request with the same digest has
/// a canonical form that is written alike: any nested difference changes it.
pub fn request_digest(value: Json) -> (result: Result<String, DigestError>)
    ensures
        match result {
            Ok(digest) => {
                &&& digest_of(value@) == Some(digest@)
                &&& is_digest(digest@)
                &&& forall|other: JsonView| #[trigger]
                    digest_of(other) == Some(digest@) ==> written_alike(
                        json::canonical(other),
                        json::canonical(value@),
                    ) || is_collision(hashed(other), hashed(value@))
            },
            Err(_) => digest_of(value@) is None,
        },
{
    let form = canonicalize(value);
    match json_to_vec(&form) {
        Ok(bytes) => {
            let digest = sha256_hex(bytes.as_slice());
            proof {
                json::law_canonical_is_stable(value@);
                assert forall|other: JsonView| #[trigger]
                    digest_of(other) == Some(digest@) implies written_alike(
                    json::canonical(other),
                    json::canonical(value@),
                ) || is_collision(hashed(other), hashed(value@)) by {
                    json::law_canonical_is_stable(other);
                    law_one_digest_means_one_text(other, value@);
                    assert(json_bytes(json::canonical(other)) == Some(hashed(other)));
                }
            }
            Ok(digest)
        },
        Err(_) => Err(DigestError),
    }
}

/// Two requests that differ only in the order of an object's fields, at any
/// depth, have the same digest.
pub proof fn law_digest_ignores_field_order(
    a: Seq<(Seq<char>, JsonView)>,
    b: Seq<(Seq<char>, JsonView)>,
)
    requires
        json::fields_agree(a, b),
    ensures
        digest_of(JsonView::Object(a)) == digest_of(JsonView::Object(b)),
{
    json::law_field_order_is_irrelevant(a, b);
}

/// Requests of one canonical form have one digest, which is that of the form.
pub proof fn law_digest_reads_the_canonical_form(a: JsonView, b: JsonView)
    requires
        json::canonical(a) == json::canonical(b),
    ensures
        digest_of(a) == digest_of(b),
        digest_of(a) == digest_of(json::canonical(a)),
{
    json::law_canonical_is_stable(a);
}

} // verus!
