//! Textual format of a version-5, variant-1 UUID.

use vstd::prelude::*;
use crate::text::{is_hex_digit, char_is_hex_digit, chars_of, lower, upper};

verus! {

/// Number of characters in the hyphenated form: 8-4-4-4-12.
pub const UUID_TEXT_LEN: usize = 36;

/// The four positions that hold a hyphen.
pub open spec fn is_hyphen_position(i: int) -> bool {
    i == 8 || i == 13 || i == 18 || i == 23
}

/// Position of the version nibble, the first character of the third group.
pub open spec fn version_position() -> int {
    14
}

/// Position of the variant nibble, the first character of the fourth group.
pub open spec fn variant_position() -> int {
    19
}

/// The variant nibbles of RFC 4122 variant 1, in either case.
pub open spec fn is_variant_one(c: char) -> bool {
    c == '8' || c == '9' || c == 'a' || c == 'b' || c == 'A' || c == 'B'
}

/// What position `i` of a well-formed identifier may hold.
pub open spec fn position_ok(i: int, c: char) -> bool {
    if is_hyphen_position(i) {
        c == '-'
    } else if i == version_position() {
        c == '5'
    } else if i == variant_position() {
        is_variant_one(c)
    } else {
        is_hex_digit(c)
    }
}

/// `s` is the hyphenated hexadecimal form of a version-5, variant-1 UUID.
pub open spec fn is_v5_uuid(s: Seq<char>) -> bool {
    &&& s.len() == UUID_TEXT_LEN
    &&& forall|i: int| 0 <= i < s.len() ==> position_ok(i, #[trigger] s[i])
}

fn check_position(i: usize, c: char) -> (r: bool)
    ensures
        r == position_ok(i as int, c),
{
    if i == 8 || i == 13 || i == 18 || i == 23 {
        c == '-'
    } else if i == 14 {
        c == '5'
    } else if i == 19 {
        c == '8' || c == '9' || c == 'a' || c == 'b' || c == 'A' || c == 'B'
    } else {
        char_is_hex_digit(c)
    }
}

/// Decides whether `uuid` is a well-formed version-5, variant-1 UUID.
/// Total: every string gets an answer.
pub fn validate_uuid(uuid: &str) -> (r: bool)
    ensures
        r == is_v5_uuid(uuid@),
{
    let chars = chars_of(uuid);
    if chars.len() != UUID_TEXT_LEN {
        return false;
    }
    let mut i: usize = 0;
    while i < chars.len()
        invariant
            i <= chars.len(),
            chars@ == uuid@,
            forall|j: int| 0 <= j < i ==> position_ok(j, #[trigger] uuid@[j]),
        decreases chars.len() - i,
    {
        if !check_position(i, chars[i]) {
            return false;
        }
        i += 1;
    }
    true
}

/// An identifier whose version nibble is not `5` is rejected, whatever else it holds.
pub proof fn lemma_other_version_rejected(s: Seq<char>)
    requires
        s.len() == UUID_TEXT_LEN ==> s[version_position()] != '5',
    ensures
        !is_v5_uuid(s),
{
}

/// An identifier whose variant nibble is none of `8`, `9`, `a`, `b` (in either case)
/// is rejected, whatever else it holds.
pub proof fn lemma_other_variant_rejected(s: Seq<char>)
    requires
        s.len() == UUID_TEXT_LEN ==> !is_variant_one(s[variant_position()]),
    ensures
        !is_v5_uuid(s),
{
}

/// Letter case does not matter: an identifier, its lower-case form and its
/// upper-case form are accepted together or rejected together.
pub proof fn lemma_case_insensitive(s: Seq<char>)
    ensures
        is_v5_uuid(lower(s)) == is_v5_uuid(s),
        is_v5_uuid(upper(s)) == is_v5_uuid(s),
{
    assert forall|i: int| 0 <= i < s.len() implies position_ok(i, #[trigger] lower(s)[i])
        == position_ok(i, s[i]) by {}
    assert forall|i: int| 0 <= i < s.len() implies position_ok(i, #[trigger] upper(s)[i])
        == position_ok(i, s[i]) by {}
    if is_v5_uuid(lower(s)) {
        assert forall|i: int| 0 <= i < s.len() implies position_ok(i, #[trigger] s[i]) by {
            assert(position_ok(i, lower(s)[i]));
        }
    }
    if is_v5_uuid(upper(s)) {
        assert forall|i: int| 0 <= i < s.len() implies position_ok(i, #[trigger] s[i]) by {
            assert(position_ok(i, upper(s)[i]));
        }
    }
}

} // verus!
