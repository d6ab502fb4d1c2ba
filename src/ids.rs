//! Fresh identities, drawn through uuid.
use vstd::arithmetic::power::pow;
use vstd::prelude::*;

verus! {

/// Relies on `uuid::Uuid::new_v4` and its `Display`, which writes the
/// hyphenated form: a random identity as 36 characters.
#[verifier::external_body]
pub(crate) fn new_id_string() -> (r: String)
    ensures
        r@.len() == 36,
{
    uuid::Uuid::new_v4().to_string()
}

/// The position among the 32 hexadecimal digits of character `p` of the
/// hyphenated form, whose hyphens stand at 8, 13, 18 and 23.
pub open spec fn digit_position(p: int) -> int {
    if p < 8 {
        p
    } else if p < 13 {
        p - 1
    } else if p < 18 {
        p - 2
    } else if p < 23 {
        p - 3
    } else {
        p - 4
    }
}

/// The text form of an id, as the hyphenated UUID it stands for: its 32
/// lowercase hexadecimal digits, most significant first, in groups of
/// 8, 4, 4, 4 and 12 joined by hyphens.
pub open spec fn hyphenated(id: u128) -> Seq<char> {
    Seq::new(
        36,
        |p: int|
            if p == 8 || p == 13 || p == 18 || p == 23 {
                '-'
            } else {
                "0123456789abcdef"@[(id as int / pow(16, (31 - digit_position(p)) as nat)) % 16]
            },
    )
}

/// Relies on `uuid::Uuid::from_u128`, which takes the id's bytes most
/// significant first, and the `Display` of `Uuid`, which writes them as
/// lowercase hexadecimal in the hyphenated form.
#[verifier::external_body]
pub(crate) fn id_text(id: u128) -> (r: String)
    ensures
        r@ == hyphenated(id),
        r@.len() == 36,
{
    uuid::Uuid::from_u128(id).to_string()
}

} // verus!
