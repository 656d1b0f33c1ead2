//! Strings as sequences of characters.

use vstd::prelude::*;

verus! {

/// The characters of `s`, in order.
pub fn chars_of(s: &str) -> (v: Vec<char>)
    ensures
        v@ == s@,
{
    let mut v: Vec<char> = Vec::new();
    for c in it: s.chars()
        invariant
            v@ == it.seq().take(it.index() as int),
            it.seq() == s@,
    {
        v.push(c);
    }
    v
}

/// Whether `chars` spells `word`.
pub fn spells(chars: &Vec<char>, word: &str) -> (yes: bool)
    ensures
        yes == (chars@ == word@),
{
    let letters = chars_of(word);
    if letters.len() != chars.len() {
        return false;
    }
    let mut i: usize = 0;
    while i < chars.len()
        invariant
            i <= chars.len(),
            chars.len() == letters.len(),
            letters@ == word@,
            forall|j: int| 0 <= j < i ==> chars@[j] == letters@[j],
        decreases chars.len() - i,
    {
        if chars[i] != letters[i] {
            return false;
        }
        i = i + 1;
    }
    proof {
        assert(chars@ =~= letters@);
    }
    true
}

/// What an optional string holds, as an optional sequence of characters.
pub open spec fn opt_view(text: Option<String>) -> Option<Seq<char>> {
    match text {
        Some(s) => Some(s@),
        None => None,
    }
}

/// A copy of an optional string.
pub fn opt_clone(text: &Option<String>) -> (copy: Option<String>)
    ensures
        opt_view(copy) == opt_view(*text),
{
    match text {
        Some(s) => Some(s.clone()),
        None => None,
    }
}

} // verus!
