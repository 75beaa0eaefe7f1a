//! Case conversion of identifiers, by the `heck` crate.
//!
//! What each conversion gives is heck's word-splitting algorithm; it is named here and not
//! written out.

use heck::{ToLowerCamelCase, ToShoutySnakeCase, ToSnakeCase, ToUpperCamelCase};
use vstd::prelude::*;

verus! {

/// What heck's `to_upper_camel_case` gives for a string.
pub uninterp spec fn upper_camel_case(s: Seq<char>) -> Seq<char>;

/// What heck's `to_lower_camel_case` gives for a string.
pub uninterp spec fn lower_camel_case(s: Seq<char>) -> Seq<char>;

/// What heck's `to_snake_case` gives for a string.
pub uninterp spec fn snake_case(s: Seq<char>) -> Seq<char>;

/// What heck's `to_shouty_snake_case` gives for a string.
pub uninterp spec fn shouty_snake_case(s: Seq<char>) -> Seq<char>;

/// Whether a string is one word of ASCII lowercase letters, which heck's lower camel case and
/// snake case conversions leave as it is.
pub open spec fn is_lowercase_word(s: Seq<char>) -> bool {
    &&& s.len() > 0
    &&& forall|i: int| 0 <= i < s.len() ==> 'a' <= #[trigger] s[i] <= 'z'
}

/// heck's `ToUpperCamelCase::to_upper_camel_case`.  Claimed: the result depends on the
/// characters of `s` alone.
#[verifier::external_body]
pub(crate) fn to_upper_camel_case(s: &str) -> (r: String)
    ensures
        r@ == upper_camel_case(s@),
{
    s.to_upper_camel_case()
}

/// heck's `ToLowerCamelCase::to_lower_camel_case`.  Claimed: the result depends on the
/// characters of `s` alone, and one word of lowercase ASCII letters comes back unchanged (it is
/// a single word, and the first word is written in lowercase).
#[verifier::external_body]
pub(crate) fn to_lower_camel_case(s: &str) -> (r: String)
    ensures
        r@ == lower_camel_case(s@),
        is_lowercase_word(s@) ==> r@ == s@,
{
    s.to_lower_camel_case()
}

/// heck's `ToSnakeCase::to_snake_case`.  Claimed: the result depends on the characters of `s`
/// alone, and one word of lowercase ASCII letters comes back unchanged (a single word, written
/// in lowercase, with no separator).
#[verifier::external_body]
pub(crate) fn to_snake_case(s: &str) -> (r: String)
    ensures
        r@ == snake_case(s@),
        is_lowercase_word(s@) ==> r@ == s@,
{
    s.to_snake_case()
}

/// heck's `ToShoutySnakeCase::to_shouty_snake_case`.  Claimed: the result depends on the
/// characters of `s` alone.
#[verifier::external_body]
pub(crate) fn to_shouty_snake_case(s: &str) -> (r: String)
    ensures
        r@ == shouty_snake_case(s@),
{
    s.to_shouty_snake_case()
}

} // verus!
