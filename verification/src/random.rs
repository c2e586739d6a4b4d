//! Fresh identifiers and secrets. The randomness comes from outside the
//! library; what is built from it is verified.

use vstd::prelude::*;

verus! {

/// Whether `id` carries the version and variant marks of a random
/// (version 4) identifier.
pub open spec fn is_random_id(id: u128) -> bool {
    (id >> 76u128) & 0xfu128 == 4u128 && (id >> 62u128) & 0x3u128 == 2u128
}

/// Whether `c` is one of `a-z`, `A-Z`, `0-9`.
pub open spec fn is_alphanumeric(c: char) -> bool {
    ('a' <= c && c <= 'z') || ('A' <= c && c <= 'Z') || ('0' <= c && c <= '9')
}

/// The length of an admin token.
pub const TOKEN_LENGTH: usize = 32;

/// Whether `token` has the shape of an admin token: `TOKEN_LENGTH`
/// characters, each of them alphanumeric.
pub open spec fn is_token(token: Seq<char>) -> bool {
    &&& token.len() == TOKEN_LENGTH
    &&& forall|i: int| 0 <= i < token.len() ==> is_alphanumeric(#[trigger] token[i])
}

/// Trusted: `uuid::Uuid::new_v4` followed by `Uuid::as_u128`. The identifier
/// is drawn at random from the operating system's generator. All that is
/// claimed of it is that the version and variant bits are those of a version
/// 4 identifier, which `new_v4` sets by masking; that two identifiers differ
/// is likely and not claimed.
#[verifier::external_body]
pub(crate) fn new_v4() -> (id: u128)
    ensures
        is_random_id(id),
{
    uuid::Uuid::new_v4().as_u128()
}

/// Trusted: `fastrand::alphanumeric`. The character is drawn at random by
/// the thread's generator from `a-z`, `A-Z` and `0-9`; which one it is, is
/// not claimed.
#[verifier::external_body]
pub(crate) fn alphanumeric() -> (c: char)
    ensures
        is_alphanumeric(c),
{
    fastrand::alphanumeric()
}

/// Trusted: `String::push` of the standard library appends the character to
/// the end of the string.
pub assume_specification[ String::push ](s: &mut String, ch: char)
    ensures
        final(s)@ == old(s)@.push(ch),
;

/// A fresh admin token: `TOKEN_LENGTH` random alphanumeric characters.
pub fn random_token() -> (token: String)
    ensures
        is_token(token@),
{
    let mut token = String::new();
    let mut i: usize = 0;
    while i < TOKEN_LENGTH
        invariant
            i <= TOKEN_LENGTH,
            token@.len() == i,
            forall|j: int| 0 <= j < token@.len() ==> is_alphanumeric(#[trigger] token@[j]),
        decreases TOKEN_LENGTH - i,
    {
        let c = alphanumeric();
        token.push(c);
        i += 1;
    }
    token
}

} // verus!
