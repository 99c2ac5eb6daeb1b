//! Random 128-bit tokens: transaction identifiers and account versions.

use vstd::prelude::*;

verus! {

/// Whether `v` carries the version and variant marks of a random UUID: the
/// version nibble is 4 and the two variant bits are `10`.
pub open spec fn is_random_uuid(v: u128) -> bool {
    v & 0x0000_0000_0000_f000_c000_0000_0000_0000u128
        == 0x0000_0000_0000_4000_8000_0000_0000_0000u128
}

/// Calls `uuid::Uuid::new_v4` and reads the result with `Uuid::as_u128`.
/// Trusted: the 122 random bits are unconstrained; the value always carries the
/// version and variant marks, which `new_v4` sets by masking.
#[verifier::external_body]
pub(crate) fn random_uuid() -> (v: u128)
    ensures
        is_random_uuid(v),
{
    uuid::Uuid::new_v4().as_u128()
}

/// The text `uuid` writes for a token: its hyphenated lower-case form.
pub uninterp spec fn uuid_text(id: u128) -> Seq<char>;

/// The token `uuid` reads from a text, or `None` where the text is in none of
/// the forms it accepts.
pub uninterp spec fn uuid_of_text(text: Seq<char>) -> Option<u128>;

/// Calls `uuid::Uuid::from_u128`, `Uuid::hyphenated` and the `to_string` of the
/// result. Trusted: the text is a function of the token alone, named
/// [`uuid_text`].
#[verifier::external_body]
pub(crate) fn format_uuid(id: u128) -> (s: String)
    ensures
        s@ == uuid_text(id),
{
    uuid::Uuid::from_u128(id).hyphenated().to_string()
}

/// Calls `uuid::Uuid::parse_str` and reads the result with `Uuid::as_u128`.
/// Trusted: the result is a function of the text alone, named
/// [`uuid_of_text`].
#[verifier::external_body]
pub(crate) fn parse_uuid(text: &str) -> (r: Option<u128>)
    ensures
        r == uuid_of_text(text@),
{
    uuid::Uuid::parse_str(text).ok().map(|parsed| parsed.as_u128())
}

/// The version an account takes when it leaves version `current`, given a newly
/// drawn `candidate`: the candidate itself unless it collides with `current`, in
/// which case its lowest bit is flipped.
pub open spec fn successor(current: u128, candidate: u128) -> u128 {
    if candidate != current {
        candidate
    } else {
        candidate ^ 1u128
    }
}

/// Computes [`successor`]. The result always differs from `current`, and keeps
/// the marks of a random UUID when the candidate has them.
pub fn next_version(current: u128, candidate: u128) -> (v: u128)
    ensures
        v == successor(current, candidate),
        v != current,
        is_random_uuid(candidate) ==> is_random_uuid(v),
{
    if candidate != current {
        candidate
    } else {
        let flipped: u128 = candidate ^ 1u128;
        assert(flipped != candidate) by (bit_vector)
            requires
                flipped == candidate ^ 1u128,
        ;
        assert((candidate & 0x0000_0000_0000_f000_c000_0000_0000_0000u128)
            == (flipped & 0x0000_0000_0000_f000_c000_0000_0000_0000u128)) by (bit_vector)
            requires
                flipped == candidate ^ 1u128,
        ;
        flipped
    }
}

/// The successor of a version is never that version.
pub proof fn lemma_successor_differs(current: u128, candidate: u128)
    ensures
        successor(current, candidate) != current,
{
    assert(candidate ^ 1u128 != candidate) by (bit_vector);
}

} // verus!
