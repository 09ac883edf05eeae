//! Random identifiers.

use vstd::prelude::*;

verus! {

/// Whether a character is a lower-case hexadecimal digit.
pub open spec fn hex_digit(c: char) -> bool {
    '0' <= c <= '9' || 'a' <= c <= 'f'
}

/// Whether a character marks the variant of a random identifier.
pub open spec fn variant_digit(c: char) -> bool {
    c == '8' || c == '9' || c == 'a' || c == 'b'
}

/// Whether a text is a random identifier in hyphenated form: 8-4-4-4-12
/// hexadecimal digits, with the version 4 and the variant marked.
pub open spec fn hyphenated_form(s: Seq<char>) -> bool {
    &&& s.len() == 36
    &&& s[14] == '4'
    &&& variant_digit(s[19])
    &&& forall|i: int|
        0 <= i < 36 ==> if i == 8 || i == 13 || i == 18 || i == 23 {
            #[trigger] s[i] == '-'
        } else {
            hex_digit(s[i])
        }
}

/// Whether a text is a random identifier without hyphens: 32 hexadecimal
/// digits, with the version 4 and the variant marked.
pub open spec fn simple_form(s: Seq<char>) -> bool {
    &&& s.len() == 32
    &&& s[12] == '4'
    &&& variant_digit(s[16])
    &&& forall|i: int| 0 <= i < 32 ==> hex_digit(#[trigger] s[i])
}

/// `uuid::Uuid::new_v4` written by its `Display`: a random identifier in
/// hyphenated form. Which one it is, is left to chance.
#[verifier::external_body]
pub(crate) fn fresh_hyphenated() -> (r: String)
    ensures
        hyphenated_form(r@),
{
    uuid::Uuid::new_v4().to_string()
}

/// `uuid::Uuid::new_v4` written by `uuid::Uuid::simple`: a random identifier
/// without hyphens. Which one it is, is left to chance.
#[verifier::external_body]
pub(crate) fn fresh_simple() -> (r: String)
    ensures
        simple_form(r@),
{
    uuid::Uuid::new_v4().simple().to_string()
}

} // verus!
