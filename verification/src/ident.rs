//! Identifiers. A UUID is held as its 128-bit big-endian value.

use vstd::prelude::*;

use crate::digest;

verus! {

/// The hexadecimal digit at a place of a UUID, from the most significant one
/// at 0 to the least significant one at 31.
pub open spec fn uuid_digit(id: u128, place: int) -> int {
    (id as int / vstd::arithmetic::power::pow(16, (31 - place) as nat)) % 16
}

/// The hyphenated lower-case text of a UUID: groups of 8, 4, 4, 4 and 12 digits.
pub open spec fn uuid_text(id: u128) -> Seq<char> {
    Seq::new(
        36,
        |i: int|
            if i == 8 || i == 13 || i == 18 || i == 23 {
                '-'
            } else if i < 8 {
                digest::hex_char(uuid_digit(id, i))
            } else if i < 13 {
                digest::hex_char(uuid_digit(id, i - 1))
            } else if i < 18 {
                digest::hex_char(uuid_digit(id, i - 2))
            } else if i < 23 {
                digest::hex_char(uuid_digit(id, i - 3))
            } else {
                digest::hex_char(uuid_digit(id, i - 4))
            },
    )
}

/// The UUID that a text denotes in one of the forms that the UUID crate reads,
/// or nothing.
pub uninterp spec fn uuid_parse(text: Seq<char>) -> Option<u128>;

/// Whether a value is a UUID of version 7: the version digit is 7 and the
/// variant bits are those of RFC 9562. Such a value is never nil.
pub open spec fn is_v7(id: u128) -> bool {
    &&& (id as int / 0x1000_0000_0000_0000_0000) % 16 == 7
    &&& (id as int / 0x4000_0000_0000_0000) % 4 == 2
}

/// The `Display` form of `uuid::Uuid`: the hyphenated lower-case text.
#[verifier::external_body]
pub(crate) fn uuid_to_string(id: u128) -> (text: String)
    ensures
        text@ == uuid_text(id),
{
    uuid::Uuid::from_u128(id).to_string()
}

/// The 32 lower-case digits of a UUID.
pub open spec fn uuid_simple(id: u128) -> Seq<char> {
    Seq::new(32, |i: int| digest::hex_char(uuid_digit(id, i)))
}

/// The `Display` form of `uuid::fmt::Simple`: the lower-case digits alone.
#[verifier::external_body]
pub(crate) fn uuid_to_simple_string(id: u128) -> (text: String)
    ensures
        text@ == uuid_simple(id),
{
    uuid::Uuid::from_u128(id).simple().to_string()
}

/// `uuid::Uuid::parse_str`: the UUID that the text denotes, or nothing for its
/// error. The result depends on the text alone, and the hyphenated text of a
/// UUID is read back as that UUID.
#[verifier::external_body]
pub(crate) fn uuid_from_str(text: &str) -> (id: Option<u128>)
    ensures
        id == uuid_parse(text@),
        forall|known: u128| text@ == uuid_text(known) ==> id == Some(known),
{
    uuid::Uuid::parse_str(text).ok().map(|id| id.as_u128())
}

/// `uuid::Uuid::now_v7`: a version 7 UUID of the present time. Which one it is
/// depends on the clock and on random bits, so nothing more is claimed.
#[verifier::external_body]
pub(crate) fn uuid_now_v7() -> (id: u128)
    ensures
        is_v7(id),
{
    uuid::Uuid::now_v7().as_u128()
}

/// Draws a new UUID of version 7.
pub fn fresh_uuid() -> (id: u128)
    ensures
        is_v7(id),
        id != 0,
{
    uuid_now_v7()
}

/// The identity of a sandbox.
#[derive(Debug, Clone, Copy, PartialEq, Eq, Structural)]
pub struct SandboxId {
    pub bits: u128,
}

impl SandboxId {
    /// Draws a new identity.
    pub fn new() -> (id: SandboxId)
        ensures
            is_v7(id.bits),
    {
        SandboxId { bits: fresh_uuid() }
    }

    /// The greatest identity.
    pub fn max() -> (id: SandboxId)
        ensures
            id == (SandboxId { bits: u128::MAX }),
    {
        SandboxId { bits: u128::MAX }
    }

    /// The text of the identity.
    pub open spec fn text(self) -> Seq<char> {
        uuid_text(self.bits)
    }

    /// Renders the identity.
    pub fn to_text(self) -> (text: String)
        ensures
            text@ == self.text(),
    {
        uuid_to_string(self.bits)
    }

    /// Reads an identity from its text.
    pub fn parse_str(text: &str) -> (id: Option<SandboxId>)
        ensures
            match id {
                Some(found) => uuid_parse(text@) == Some(found.bits),
                None => uuid_parse(text@) is None,
            },
            forall|known: SandboxId| text@ == #[trigger] known.text() ==> id == Some(known),
    {
        match uuid_from_str(text) {
            Some(bits) => Some(SandboxId { bits }),
            None => None,
        }
    }
}

proof fn lemma_digit_shown(id: u128, place: int, i: int)
    requires
        0 <= place < 32,
        i == place + (if place < 8 {
            0int
        } else if place < 12 {
            1
        } else if place < 16 {
            2
        } else if place < 20 {
            3
        } else {
            4
        }),
    ensures
        uuid_text(id)[i] == digest::hex_char(uuid_digit(id, place)),
{
}

/// Two identities with the same text are the same identity.
pub proof fn law_text_identifies(a: SandboxId, b: SandboxId)
    requires
        a.text() == b.text(),
    ensures
        a == b,
{
    assert forall|place: int| 0 <= place < 32 implies #[trigger] uuid_digit(a.bits, place)
        == uuid_digit(b.bits, place) by {
        let i: int = if place < 8 {
            place
        } else if place < 12 {
            place + 1
        } else if place < 16 {
            place + 2
        } else if place < 20 {
            place + 3
        } else {
            place + 4
        };
        lemma_digit_shown(a.bits, place, i);
        lemma_digit_shown(b.bits, place, i);
        digest::lemma_hex_char_injective(uuid_digit(a.bits, place), uuid_digit(b.bits, place));
    }
    lemma_digits_determine(a.bits, b.bits);
}

proof fn lemma_digits_determine(a: u128, b: u128)
    requires
        forall|p: int| 0 <= p < 32 ==> #[trigger] uuid_digit(a, p) == uuid_digit(b, p),
    ensures
        a == b,
{
    lemma_low_digits(a, b, 32);
    assert(vstd::arithmetic::power::pow(16, 32) == 0x1_0000_0000_0000_0000_0000_0000_0000_0000) by {
        reveal(vstd::arithmetic::power::pow);
        reveal_with_fuel(vstd::arithmetic::power::pow, 33);
    }
}

proof fn lemma_low_digits(a: u128, b: u128, n: nat)
    requires
        n <= 32,
        forall|p: int| 0 <= p < 32 ==> #[trigger] uuid_digit(a, p) == uuid_digit(b, p),
    ensures
        a as int % vstd::arithmetic::power::pow(16, n) == b as int % vstd::arithmetic::power::pow(16, n),
    decreases n,
{
    if n == 0 {
        vstd::arithmetic::power::lemma_pow0(16);
    } else {
        let m = (n - 1) as nat;
        lemma_low_digits(a, b, m);
        vstd::arithmetic::power::lemma_pow_positive(16, m);
        vstd::arithmetic::power::lemma_pow_adds(16, m, 1);
        vstd::arithmetic::power::lemma_pow1(16);
        assert(vstd::arithmetic::power::pow(16, n) == vstd::arithmetic::power::pow(16, m) * 16);
        vstd::arithmetic::div_mod::lemma_mod_breakdown(a as int, vstd::arithmetic::power::pow(16, m), 16);
        vstd::arithmetic::div_mod::lemma_mod_breakdown(b as int, vstd::arithmetic::power::pow(16, m), 16);
        assert(uuid_digit(a, 31 - m) == uuid_digit(b, 31 - m));
    }
}

} // verus!
