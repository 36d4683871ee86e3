//! Fresh identifiers: for new profiles, and for the rclone remotes
//! Stellarshot makes in its own configuration.

use vstd::prelude::*;
use crate::text::{chars_of, has_prefix, string_of};

verus! {

/// `c` is a lowercase hexadecimal digit.
pub open spec fn is_lower_hex(c: char) -> bool {
    ('0' <= c && c <= '9') || ('a' <= c && c <= 'f')
}

/// `s` is made of lowercase hexadecimal digits only.
pub open spec fn all_lower_hex(s: Seq<char>) -> bool {
    forall|i: int| 0 <= i < s.len() ==> #[trigger] is_lower_hex(s[i])
}

/// `c` is a digit that marks a UUID of the RFC 4122 variant: `8`, `9`, `a`
/// or `b`.
pub open spec fn is_variant_digit(c: char) -> bool {
    c == '8' || c == '9' || c == 'a' || c == 'b'
}

/// `id` is a version 4 UUID written as 32 lowercase hexadecimal digits: its
/// thirteenth digit is the version, `4`, and its seventeenth the variant.
pub open spec fn is_v4_hex(id: Seq<char>) -> bool {
    &&& id.len() == 32
    &&& all_lower_hex(id)
    &&& id[12] == '4'
    &&& is_variant_digit(id[16])
}

/// `uuid::Uuid::new_v4().simple().to_string()`: a random version 4 UUID,
/// written as its 32 hexadecimal digits in lowercase without hyphens, with
/// the version and variant bits set. Which of the other digits come out is
/// up to the random number generator, and is not stated.
#[verifier::external_body]
fn random_hex() -> (r: String)
    ensures
        is_v4_hex(r@),
{
    uuid::Uuid::new_v4().simple().to_string()
}

/// A new profile's identifier: a random version 4 UUID's 32 hexadecimal
/// digits.
pub fn new_profile_id() -> (r: String)
    ensures
        is_v4_hex(r@),
{
    random_hex()
}

/// `name` is a name Stellarshot gives a remote of its own: `stellarshot-`
/// and eight hexadecimal digits.
pub open spec fn is_remote_name(name: Seq<char>) -> bool {
    &&& name.len() == 20
    &&& has_prefix(name, "stellarshot-"@)
    &&& all_lower_hex(name.subrange(12, 20))
}

/// A name for a remote Stellarshot creates in its own configuration:
/// `stellarshot-` and the first eight digits of a random UUID.
pub fn new_remote_name() -> (r: String)
    ensures
        is_remote_name(r@),
{
    let id = random_hex();
    let digits = chars_of(id.as_str());
    let mut name = chars_of("stellarshot-");
    proof {
        reveal_strlit("stellarshot-");
    }
    let ghost prefix = name@;
    let mut i: usize = 0;
    while i < 8
        invariant
            i <= 8,
            digits@ == id@,
            id@.len() == 32,
            all_lower_hex(id@),
            prefix == "stellarshot-"@,
            prefix.len() == 12,
            name@ == prefix + id@.subrange(0, i as int),
        decreases 8 - i,
    {
        name.push(digits[i]);
        assert(id@.subrange(0, i + 1) =~= id@.subrange(0, i as int).push(id@[i as int]));
        i = i + 1;
    }
    let r = string_of(name.as_slice());
    assert(r@.subrange(0, 12) =~= prefix);
    assert(r@.subrange(12, 20) =~= id@.subrange(0, 8));
    r
}

} // verus!
