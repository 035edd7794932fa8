//! Helpers on text: strings seen as sequences of characters.

use vstd::prelude::*;

verus! {

/// Whether `s` ends with `tail`.
pub open spec fn ends_with(s: Seq<char>, tail: Seq<char>) -> bool {
    tail.len() <= s.len() && s.subrange(s.len() - tail.len(), s.len() as int) == tail
}

/// Whether `s` starts with `head`.
pub open spec fn starts_with(s: Seq<char>, head: Seq<char>) -> bool {
    head.len() <= s.len() && s.subrange(0, head.len() as int) == head
}

/// The characters of a string, in order.
pub fn chars_of(s: &str) -> (v: Vec<char>)
    ensures
        v@ == s@,
{
    broadcast use vstd::string::group_string_axioms;

    let mut v: Vec<char> = Vec::new();
    for c in it: s.chars()
        invariant
            it.seq() == s@,
            v@ == s@.take(it.index()),
    {
        v.push(c);
    }
    v
}

/// Whether the characters `s` end with those of `tail`.
pub fn chars_end_with(s: &Vec<char>, tail: &Vec<char>) -> (r: bool)
    ensures
        r == ends_with(s@, tail@),
{
    if tail.len() > s.len() {
        return false;
    }
    let off: usize = s.len() - tail.len();
    let mut i: usize = 0;
    while i < tail.len()
        invariant
            off + tail.len() == s.len(),
            i <= tail.len(),
            forall|j: int| 0 <= j < i ==> s@[off + j] == tail@[j],
        decreases tail.len() - i,
    {
        if s[off + i] != tail[i] {
            assert(s@.subrange(off as int, s.len() as int)[i as int] != tail@[i as int]);
            return false;
        }
        i = i + 1;
    }
    assert(s@.subrange(off as int, s.len() as int) =~= tail@);
    true
}

/// Whether the characters `s` start with those of `head`.
pub fn chars_start_with(s: &Vec<char>, head: &Vec<char>) -> (r: bool)
    ensures
        r == starts_with(s@, head@),
{
    if head.len() > s.len() {
        return false;
    }
    let mut i: usize = 0;
    while i < head.len()
        invariant
            head.len() <= s.len(),
            i <= head.len(),
            forall|j: int| 0 <= j < i ==> s@[j] == head@[j],
        decreases head.len() - i,
    {
        if s[i] != head[i] {
            assert(s@.subrange(0, head.len() as int)[i as int] != head@[i as int]);
            return false;
        }
        i = i + 1;
    }
    assert(s@.subrange(0, head.len() as int) =~= head@);
    true
}

} // verus!
