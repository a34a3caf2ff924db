//! Moving between `str` / `String` and the character vectors the library works on.
use vstd::prelude::*;

verus! {

/// Relies on `str::chars` collected into a `Vec`: the characters of `s`, in order.
#[verifier::external_body]
pub(crate) fn chars_of(s: &str) -> (r: Vec<char>)
    ensures
        r@ == s@,
{
    s.chars().collect()
}

/// Relies on collecting characters into a `String` (`FromIterator<&char>`):
/// the string made of `v`, in order.
#[verifier::external_body]
pub(crate) fn string_of(v: &Vec<char>) -> (r: String)
    ensures
        r@ == v@,
{
    v.iter().collect()
}

/// Relies on `format!` with `{:#?}`: the pretty-printed `Debug` text of `v`.
/// What that text is depends on `T`'s `Debug` impl, so nothing is stated of it.
#[verifier::external_body]
pub(crate) fn pretty_debug<T: std::fmt::Debug>(v: &T) -> (r: String) {
    format!("{:#?}", v)
}

} // verus!
