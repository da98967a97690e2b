//! Bridges between `String`/`&str` and `Vec<char>`: the codec works over
//! character vectors, the public API speaks `String`.

use vstd::prelude::*;
use vstd::std_specs::iter::IteratorSpec;

verus! {

broadcast use vstd::string::next_postcondition, vstd::string::axiom_spec_iter;

/// Appends every character of `s` to `buf`, in order.
pub fn append_str_chars(buf: &mut Vec<char>, s: &str)
    ensures
        final(buf)@ == old(buf)@ + s@,
{
    let ghost b0: Seq<char> = buf@;
    for c in it: s.chars()
        invariant
            it.seq() == s@,
            buf@ == b0 + it.seq().take(it.index() as int),
    {
        buf.push(c);
    }
    assert(buf@ =~= b0 + s@);
}

/// The characters of `s`, in order.
pub fn str_to_chars(s: &str) -> (r: Vec<char>)
    ensures
        r@ == s@,
{
    let mut v: Vec<char> = Vec::new();
    append_str_chars(&mut v, s);
    assert(v@ =~= s@);
    v
}

/// Relies on `String`'s `FromIterator` impl: collecting characters yields a
/// string holding exactly those characters in order.
#[verifier::external_body]
pub fn string_from_chars(v: &Vec<char>) -> (r: String)
    ensures
        r@ == v@,
{
    v.iter().copied().collect()
}

/// A string built from the characters of `s`: used to return fixed protocol
/// texts whose contracts name the literal.
pub fn string_of(s: &str) -> (r: String)
    ensures
        r@ == s@,
{
    let v = str_to_chars(s);
    string_from_chars(&v)
}

} // verus!
