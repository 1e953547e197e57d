//! Small verified helpers on text.
use vstd::prelude::*;
use vstd::string::*;

verus! {

/// Compare two pieces of text character by character.
pub fn text_eq(a: &str, b: &str) -> (r: bool)
    ensures
        r == (a@ == b@),
{
    let x = String::from_str(a);
    let y = String::from_str(b);
    x == y
}

/// Copy a piece of text into an owned string.
pub fn owned(a: &str) -> (r: String)
    ensures
        r@ == a@,
{
    String::from_str(a)
}

} // verus!
