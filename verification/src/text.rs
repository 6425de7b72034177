//! What this library relies on of `String` and `str` beyond what `vstd` states.

use vstd::prelude::*;
use vstd::string::*;

verus! {

/// `String::push` appends one character.
pub assume_specification[ String::push ](s: &mut String, c: char)
    ensures
        final(s)@ == old(s)@.push(c),
;

/// `String::with_capacity` gives an empty string; it panics where the capacity is more
/// than `isize::MAX` bytes.
pub assume_specification[ String::with_capacity ](capacity: usize) -> (s: String)
    requires
        capacity <= isize::MAX,
    ensures
        s@ == Seq::<char>::empty(),
;

/// `str` equality compares the characters.
pub assume_specification[ <str as PartialEq>::eq ](a: &str, b: &str) -> (r: bool)
    ensures
        r == (a@ == b@),
;

/// What one character of fixed text becomes in a format template: a brace is doubled.
pub open spec fn doubled_brace(c: char) -> Seq<char> {
    if c == '{' {
        seq!['{', '{']
    } else if c == '}' {
        seq!['}', '}']
    } else {
        seq![c]
    }
}

/// Fixed text as it stands in a format template: with each brace doubled.
pub open spec fn doubled_braces(text: Seq<char>) -> Seq<char>
    decreases text.len(),
{
    if text.len() == 0 {
        Seq::empty()
    } else {
        doubled_braces(text.drop_last()) + doubled_brace(text.last())
    }
}

/// Puts `text` with each brace doubled behind what `out` holds.
pub fn push_doubled(text: &str, out: &mut String)
    ensures
        final(out)@ == old(out)@ + doubled_braces(text@),
{
    let ghost before = out@;
    for c in it: text.chars()
        invariant
            it.seq() == text@,
            out@ == before + doubled_braces(text@.take(it.index())),
    {
        proof {
            let k = it.index();
            assert(text@.take(k + 1).drop_last() =~= text@.take(k));
            assert(text@.take(k + 1).last() == c);
        }
        if c == '{' || c == '}' {
            out.push(c);
            out.push(c);
        } else {
            out.push(c);
        }
        assert(out@ =~= before + doubled_braces(text@.take(it.index() + 1)));
    }
    assert(text@.take(text@.len() as int) =~= text@);
}

} // verus!
