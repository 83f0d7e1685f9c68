//! Small verified helpers on strings seen as sequences of characters.

use vstd::prelude::*;

verus! {

/// The characters of `s`, in order.
pub fn chars_of(s: &str) -> (v: Vec<char>)
    ensures
        v@ == s@,
{
    let mut v: Vec<char> = Vec::new();
    for c in it: s.chars()
        invariant
            v@ == it.seq().take(it.index() as int),
            it.seq() == s@,
    {
        v.push(c);
    }
    v
}

/// Whether the characters of `text` in `from..to` begin with `prefix`.
pub fn has_prefix_at(text: &Vec<char>, from: usize, to: usize, prefix: &Vec<char>) -> (r: bool)
    requires
        from <= to <= text.len(),
    ensures
        r == prefix@.is_prefix_of(text@.subrange(from as int, to as int)),
{
    let ghost window = text@.subrange(from as int, to as int);
    if prefix.len() > to - from {
        return false;
    }
    let mut i: usize = 0;
    while i < prefix.len()
        invariant
            from <= to <= text.len(),
            prefix.len() <= to - from,
            i <= prefix.len(),
            window == text@.subrange(from as int, to as int),
            forall|k: int| 0 <= k < i ==> window[k] == prefix@[k],
        decreases prefix.len() - i,
    {
        if text[from + i] != prefix[i] {
            assert(window[i as int] != prefix@[i as int]);
            assert(window.subrange(0, prefix@.len() as int)[i as int] == window[i as int]);
            return false;
        }
        i += 1;
    }
    assert(window.subrange(0, prefix@.len() as int) =~= prefix@);
    true
}

/// Whether the characters of `text` in `from..to` are exactly `other`.
pub fn equals_at(text: &Vec<char>, from: usize, to: usize, other: &Vec<char>) -> (r: bool)
    requires
        from <= to <= text.len(),
    ensures
        r == (text@.subrange(from as int, to as int) == other@),
{
    if other.len() != to - from {
        return false;
    }
    let r = has_prefix_at(text, from, to, other);
    proof {
        let window = text@.subrange(from as int, to as int);
        assert(window.subrange(0, window.len() as int) =~= window);
    }
    r
}

} // verus!
