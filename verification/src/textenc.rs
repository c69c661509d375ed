//! Text renderings used inside records: decimal digits for turn identifiers
//! and the serialized kind-history list.

use vstd::prelude::*;

verus! {

/// The character for one decimal digit.
pub open spec fn dec_digit_char(d: int) -> char
    recommends
        0 <= d < 10,
{
    if d == 0 {
        '0'
    } else if d == 1 {
        '1'
    } else if d == 2 {
        '2'
    } else if d == 3 {
        '3'
    } else if d == 4 {
        '4'
    } else if d == 5 {
        '5'
    } else if d == 6 {
        '6'
    } else if d == 7 {
        '7'
    } else if d == 8 {
        '8'
    } else {
        '9'
    }
}

/// The decimal rendering of a non-negative integer, most significant digit
/// first, with no leading zeros (a lone zero for 0).
pub open spec fn dec_digits(n: int) -> Seq<char>
    recommends
        n >= 0,
    decreases n,
{
    if n < 10 {
        seq![dec_digit_char(n)]
    } else {
        dec_digits(n / 10).push(dec_digit_char(n % 10))
    }
}

/// Relies on u64's ToString (the Display implementation): the decimal
/// rendering of the value.
#[verifier::external_body]
pub fn u64_to_dec_string(n: u64) -> (r: String)
    ensures
        r@ == dec_digits(n as int),
{
    n.to_string()
}

/// The JSON array serde_json renders for a list of strings. Named rather
/// than spelled out: the exact text (escaping included) is serde_json's.
pub uninterp spec fn json_string_list(items: Seq<Seq<char>>) -> Seq<char>;

/// Relies on serde_json::to_string: the serialized form of the list, a
/// function of the strings alone. Serializing a vector of strings cannot
/// fail — the writer is an in-memory buffer and a string's serializer
/// raises no error of its own — so a value is always produced.
#[verifier::external_body]
pub fn encode_string_list(items: &Vec<String>) -> (r: Option<String>)
    ensures
        r is Some,
        r matches Some(s) ==> s@ == json_string_list(items@.map_values(|it: String| it@)),
{
    serde_json::to_string(items).ok()
}

} // verus!
