//! Helpers on text.

use vstd::prelude::*;
use vstd::string::StrSliceExecFns;

verus! {

/// The text after `prefix`, where `text` begins with it.
pub fn strip_prefix<'a>(text: &'a str, prefix: &str) -> (rest: Option<&'a str>)
    ensures
        match rest {
            Some(tail) => prefix@.is_prefix_of(text@) && tail@ == text@.subrange(
                prefix@.len() as int,
                text@.len() as int,
            ),
            None => !prefix@.is_prefix_of(text@),
        },
{
    let n: usize = text.unicode_len();
    let m: usize = prefix.unicode_len();
    if n < m {
        return None;
    }
    let mut i: usize = 0;
    while i < m
        invariant
            i <= m <= n,
            n == text@.len(),
            m == prefix@.len(),
            forall|j: int| 0 <= j < i ==> text@[j] == prefix@[j],
        decreases m - i,
    {
        if text.get_char(i) != prefix.get_char(i) {
            assert(!prefix@.is_prefix_of(text@)) by {
                if prefix@.is_prefix_of(text@) {
                    assert(prefix@ == text@.subrange(0, m as int));
                    assert(text@.subrange(0, m as int)[i as int] == text@[i as int]);
                }
            }
            return None;
        }
        i += 1;
    }
    assert(prefix@ =~= text@.subrange(0, m as int));
    Some(text.substring_char(m, n))
}

/// The number of characters of a text.
pub fn char_count(text: &String) -> (n: usize)
    ensures
        n == text@.len(),
{
    text.as_str().unicode_len()
}

/// The part of `text` before its first `mark`, or all of it where it has none.
pub fn before_first<'a>(text: &'a str, mark: char) -> (head: &'a str)
    ensures
        head@.is_prefix_of(text@),
        !head@.contains(mark),
        head@.len() == text@.len() || text@[head@.len() as int] == mark,
{
    let n: usize = text.unicode_len();
    let mut i: usize = 0;
    while i < n && text.get_char(i) != mark
        invariant
            i <= n,
            n == text@.len(),
            forall|j: int| 0 <= j < i ==> text@[j] != mark,
        decreases n - i,
    {
        i += 1;
    }
    let head = text.substring_char(0, i);
    assert(head@ =~= text@.subrange(0, i as int));
    assert(!head@.contains(mark)) by {
        if head@.contains(mark) {
            let j = choose|j: int| 0 <= j < head@.len() && head@[j] == mark;
            assert(text@[j] == mark);
        }
    }
    head
}

} // verus!
