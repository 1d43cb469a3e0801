//! Character-level helpers on strings, with their meaning stated over `Seq<char>`.

use vstd::prelude::*;
use vstd::std_specs::iter::IteratorSpec;
use vstd::string::{StrSliceExecFns, StringExecFns};

verus! {

/// `pattern` occurs in `s` as a contiguous run of characters.
pub open spec fn has_infix(s: Seq<char>, pattern: Seq<char>) -> bool {
    exists|i: int| occurs_at(s, pattern, i)
}

/// `pattern` occurs in `s` starting at position `i`.
pub open spec fn occurs_at(s: Seq<char>, pattern: Seq<char>, i: int) -> bool {
    0 <= i && i + pattern.len() <= s.len() && s.subrange(i, i + pattern.len()) == pattern
}

/// The position of the first `c` in `s`, or `s.len()` where `s` holds none.
pub open spec fn first_index(s: Seq<char>, c: char) -> int
    decreases s.len(),
{
    if s.len() == 0 || s[0] == c {
        0
    } else {
        1 + first_index(s.drop_first(), c)
    }
}

/// The position just behind the last `c` in `s`, or 0 where `s` holds none.
pub open spec fn last_boundary(s: Seq<char>, c: char) -> int
    decreases s.len(),
{
    if s.len() == 0 {
        0
    } else if s.last() == c {
        s.len() as int
    } else {
        last_boundary(s.drop_last(), c)
    }
}

/// What stands in `s` before its first `c`: all of `s` where it holds none.
pub open spec fn before_first(s: Seq<char>, c: char) -> Seq<char> {
    s.take(first_index(s, c))
}

/// What stands in `s` behind its first `c`: nothing where it holds none.
pub open spec fn after_first(s: Seq<char>, c: char) -> Seq<char> {
    if first_index(s, c) < s.len() {
        s.skip(first_index(s, c) + 1)
    } else {
        Seq::empty()
    }
}

/// What stands in `s` behind its last `c`: all of `s` where it holds none.
pub open spec fn after_last(s: Seq<char>, c: char) -> Seq<char> {
    s.skip(last_boundary(s, c))
}

/// `first_index` is the one position before which no `c` stands and at which
/// either `s` ends or a `c` stands.
pub proof fn lemma_first_index(s: Seq<char>, c: char, i: int)
    requires
        0 <= i <= s.len(),
        forall|j: int| 0 <= j < i ==> s[j] != c,
        i < s.len() ==> s[i] == c,
    ensures
        first_index(s, c) == i,
    decreases s.len(),
{
    if s.len() != 0 && s[0] != c {
        let rest = s.drop_first();
        assert forall|j: int| 0 <= j < i - 1 implies rest[j] != c by {
            assert(rest[j] == s[j + 1]);
        }
        lemma_first_index(rest, c, i - 1);
    }
}

/// No `c` stands before `first_index`, and at it either `s` ends or a `c`
/// stands.
pub proof fn lemma_first_index_is_first(s: Seq<char>, c: char)
    ensures
        0 <= first_index(s, c) <= s.len(),
        forall|j: int| 0 <= j < first_index(s, c) ==> s[j] != c,
        first_index(s, c) < s.len() ==> s[first_index(s, c)] == c,
    decreases s.len(),
{
    if s.len() != 0 && s[0] != c {
        let rest = s.drop_first();
        lemma_first_index_is_first(rest, c);
        assert forall|j: int| 0 <= j < first_index(s, c) implies s[j] != c by {
            if j > 0 {
                assert(rest[j - 1] == s[j]);
            }
        }
    }
}

/// What stands between two texts occurs in the whole.
pub proof fn lemma_middle_is_infix(before: Seq<char>, middle: Seq<char>, after: Seq<char>)
    ensures
        has_infix(before + middle + after, middle),
{
    let whole = before + middle + after;
    assert(whole.subrange(before.len() as int, (before.len() + middle.len()) as int) =~= middle);
    assert(occurs_at(whole, middle, before.len() as int));
}

/// `last_boundary` is the one position from which on no `c` stands and before
/// which either `s` begins or a `c` stands.
pub proof fn lemma_last_boundary(s: Seq<char>, c: char, k: int)
    requires
        0 <= k <= s.len(),
        forall|j: int| k <= j < s.len() ==> s[j] != c,
        k > 0 ==> s[k - 1] == c,
    ensures
        last_boundary(s, c) == k,
    decreases s.len(),
{
    if s.len() != 0 && s.last() != c {
        lemma_last_boundary(s.drop_last(), c, k);
    }
}

/// The characters of `s`, in order.
pub fn chars_of(s: &str) -> (chars: Vec<char>)
    ensures
        chars@ == s@,
{
    let mut chars: Vec<char> = Vec::new();
    for c in it: s.chars()
        invariant
            it.seq() == s@,
            chars@ == s@.take(it.index() as int),
    {
        chars.push(c);
    }
    chars
}

/// Whether `pattern` stands in `chars` at position `start`.
fn matches_at(chars: &Vec<char>, pattern: &Vec<char>, start: usize) -> (found: bool)
    requires
        start + pattern.len() <= chars.len(),
    ensures
        found == occurs_at(chars@, pattern@, start as int),
{
    let mut k: usize = 0;
    while k < pattern.len()
        invariant
            k <= pattern.len(),
            start + pattern.len() <= chars.len(),
            forall|j: int| 0 <= j < k ==> chars@[start + j] == pattern@[j],
        decreases pattern.len() - k,
    {
        if chars[start + k] != pattern[k] {
            proof {
                let window = chars@.subrange(start as int, start + pattern.len());
                assert(window[k as int] == chars@[start + k]);
            }
            return false;
        }
        k += 1;
    }
    assert(chars@.subrange(start as int, start + pattern.len()) =~= pattern@);
    true
}

/// Whether `pattern` occurs somewhere in `s`. The empty pattern occurs in every
/// string.
pub fn contains(s: &str, pattern: &str) -> (found: bool)
    ensures
        found == has_infix(s@, pattern@),
{
    let chars = chars_of(s);
    let wanted = chars_of(pattern);
    if wanted.len() > chars.len() {
        return false;
    }
    let last_start: usize = chars.len() - wanted.len();
    let mut i: usize = 0;
    loop
        invariant
            last_start == chars.len() - wanted.len(),
            i <= last_start,
            chars@ == s@,
            wanted@ == pattern@,
            forall|j: int| 0 <= j < i ==> !occurs_at(s@, pattern@, j),
        decreases last_start - i,
    {
        if matches_at(&chars, &wanted, i) {
            return true;
        }
        if i == last_start {
            return false;
        }
        i += 1;
    }
}

/// `opening`, then `name`, then a closing quote.
pub fn quoted(opening: &str, name: &str) -> (text: String)
    ensures
        text@ == opening@ + name@ + "'"@,
{
    let mut text = String::from_str(opening);
    text.append(name);
    text.append("'");
    text
}

/// What stands in `s` before its first `c`.
pub fn text_before_first(s: &str, c: char) -> (prefix: String)
    ensures
        prefix@ == before_first(s@, c),
{
    let chars = chars_of(s);
    let mut i: usize = 0;
    while i < chars.len() && chars[i] != c
        invariant
            i <= chars.len(),
            forall|j: int| 0 <= j < i ==> chars@[j] != c,
        decreases chars.len() - i,
    {
        i += 1;
    }
    proof {
        lemma_first_index(s@, c, i as int);
    }
    s.substring_char(0, i).to_owned()
}

/// What stands in `s` behind its first `c`.
pub fn text_after_first(s: &str, c: char) -> (suffix: String)
    ensures
        suffix@ == after_first(s@, c),
{
    let chars = chars_of(s);
    let mut i: usize = 0;
    while i < chars.len() && chars[i] != c
        invariant
            i <= chars.len(),
            forall|j: int| 0 <= j < i ==> chars@[j] != c,
        decreases chars.len() - i,
    {
        i += 1;
    }
    proof {
        lemma_first_index(s@, c, i as int);
    }
    if i < chars.len() {
        s.substring_char(i + 1, chars.len()).to_owned()
    } else {
        String::new()
    }
}

/// What stands in `s` behind its last `c`.
pub fn text_after_last(s: &str, c: char) -> (suffix: String)
    ensures
        suffix@ == after_last(s@, c),
{
    let chars = chars_of(s);
    let mut k: usize = chars.len();
    while k > 0 && chars[k - 1] != c
        invariant
            k <= chars.len(),
            forall|j: int| k <= j < chars.len() ==> chars@[j] != c,
        decreases k,
    {
        k -= 1;
    }
    proof {
        lemma_last_boundary(s@, c, k as int);
    }
    s.substring_char(k, chars.len()).to_owned()
}

} // verus!
