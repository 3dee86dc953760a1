//! Player unique ids: parsed from text, and written in the simple form of
//! 32 lowercase hexadecimal digits.

use vstd::prelude::*;

verus! {

/// The value of the unique id written as `s`, in any of the forms that
/// the `uuid` crate reads, or `None` where `s` is not one.
pub uninterp spec fn uuid_value_of(s: Seq<char>) -> Option<u128>;

/// The hexadecimal digit of `d`, in lower case.
pub open spec fn hex_digit(d: nat) -> char {
    seq!['0', '1', '2', '3', '4', '5', '6', '7', '8', '9', 'a', 'b', 'c', 'd', 'e', 'f'][(d % 16) as int]
}

pub open spec fn pow16(n: nat) -> nat
    decreases n,
{
    if n == 0 {
        1
    } else {
        16 * pow16((n - 1) as nat)
    }
}

/// The 32 lowercase hexadecimal digits of `v`, most significant first.
pub open spec fn simple_form_of(v: u128) -> Seq<char> {
    Seq::new(32, |i: int| hex_digit((v as nat / pow16((31 - i) as nat)) % 16))
}

/// Relies on `uuid::Uuid::parse_str`: the id's value where the text is a
/// unique id in one of its accepted forms, and an error otherwise.
#[verifier::external_body]
pub(crate) fn parse_uuid(s: &str) -> (r: Option<u128>)
    ensures
        r == uuid_value_of(s@),
{
    uuid::Uuid::parse_str(s).ok().map(|u| u.as_u128())
}

/// Relies on `uuid::Uuid::simple`: its text is the id's 32 hexadecimal
/// digits in lower case, without hyphens.
#[verifier::external_body]
pub(crate) fn simple_form(v: u128) -> (r: String)
    ensures
        r@ == simple_form_of(v),
{
    uuid::Uuid::from_u128(v).simple().to_string()
}

} // verus!
