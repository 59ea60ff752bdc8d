//! Character-level helpers shared by the parsers.
use vstd::prelude::*;
use vstd::utf8::{encode_utf8, is_ascii_chars, is_ascii_chars_encode_utf8};

verus! {

/// The characters of `s`, collected once so that they can be indexed.
pub fn chars_of(s: &str) -> (v: Vec<char>)
    ensures
        v@ == s@,
{
    let mut v: Vec<char> = Vec::new();
    for ch in iter: s.chars()
        invariant
            iter.seq() == s@,
            v@ == s@.take(iter.index() as int),
    {
        v.push(ch);
    }
    v
}

/// Position of the first occurrence of `c` in `s` at or after `from`,
/// or `s.len()` if there is none.
pub open spec fn first_index_from(s: Seq<char>, c: char, from: int) -> int
    decreases s.len() - from,
{
    if from >= s.len() {
        s.len() as int
    } else if s[from] == c {
        from
    } else {
        first_index_from(s, c, from + 1)
    }
}

/// What `first_index_from` finds: no `c` lies between `from` and the result,
/// and the result holds a `c` unless it is the end of `s`.
pub proof fn lemma_first_index_from(s: Seq<char>, c: char, from: int)
    requires
        0 <= from <= s.len(),
    ensures
        from <= first_index_from(s, c, from) <= s.len(),
        first_index_from(s, c, from) < s.len() ==> s[first_index_from(s, c, from)] == c,
        forall|k: int| from <= k < first_index_from(s, c, from) ==> s[k] != c,
    decreases s.len() - from,
{
    if from < s.len() && s[from] != c {
        lemma_first_index_from(s, c, from + 1);
    }
}

/// A position that holds the first `c` at or after `from` is what `first_index_from` finds.
pub proof fn lemma_first_index_from_is(s: Seq<char>, c: char, from: int, at: int)
    requires
        0 <= from <= at <= s.len(),
        at < s.len() ==> s[at] == c,
        forall|k: int| from <= k < at ==> s[k] != c,
    ensures
        first_index_from(s, c, from) == at,
    decreases at - from,
{
    if from < at {
        lemma_first_index_from_is(s, c, from + 1, at);
    }
}

/// Finds the first `c` in `v` at or after `from`.
pub fn find_from(v: &Vec<char>, c: char, from: usize) -> (r: usize)
    requires
        from <= v.len(),
    ensures
        r == first_index_from(v@, c, from as int),
        from <= r <= v.len(),
{
    let mut i: usize = from;
    while i < v.len() && v[i] != c
        invariant
            from <= i <= v.len(),
            forall|k: int| from <= k < i ==> v@[k] != c,
        decreases v.len() - i,
    {
        i += 1;
    }
    proof {
        lemma_first_index_from_is(v@, c, from as int, i as int);
    }
    i
}

/// Whether two strings hold the same characters.
pub fn str_eq(a: &str, b: &str) -> (r: bool)
    ensures
        r == (a@ == b@),
{
    let bv = chars_of(b);
    let mut i: usize = 0;
    for ch in iter: a.chars()
        invariant
            iter.seq() == a@,
            i == iter.index(),
            bv@ == b@,
            i <= bv.len(),
            a@.take(i as int) == b@.take(i as int),
    {
        if i >= bv.len() || bv[i] != ch {
            assert(a@[i as int] == ch);
            assert(a@ != b@);
            return false;
        }
        assert(a@.take(i + 1) =~= a@.take(i as int).push(ch));
        assert(b@.take(i + 1) =~= b@.take(i as int).push(ch));
        i += 1;
    }
    assert(a@.take(i as int) == a@);
    if i == bv.len() {
        assert(b@.take(i as int) == b@);
        true
    } else {
        false
    }
}

/// Whether `c` occurs nowhere in `s`.
pub open spec fn free_of(s: Seq<char>, c: char) -> bool {
    forall|k: int| 0 <= k < s.len() ==> s[k] != c
}

/// The two parts of `s` around its first `c`, or `None` if `s` holds no `c`.
pub open spec fn split_once(s: Seq<char>, c: char) -> Option<(Seq<char>, Seq<char>)> {
    let i = first_index_from(s, c, 0);
    if i < s.len() {
        Some((s.take(i), s.skip(i + 1)))
    } else {
        None
    }
}

/// The two parts of `s` around its only `c`, or `None` if `s` holds no `c` or more than one.
pub open spec fn split_in_two(s: Seq<char>, c: char) -> Option<(Seq<char>, Seq<char>)> {
    match split_once(s, c) {
        Some((head, tail)) => if free_of(tail, c) {
            Some((head, tail))
        } else {
            None
        },
        None => None,
    }
}

/// Two parts joined by `c` split at that `c` again, if the first part holds no `c`.
pub proof fn lemma_split_once_joined(head: Seq<char>, tail: Seq<char>, c: char)
    requires
        free_of(head, c),
    ensures
        split_once(head + seq![c] + tail, c) == Some((head, tail)),
{
    let s = head + seq![c] + tail;
    let i = head.len() as int;
    assert forall|k: int| 0 <= k < i implies s[k] != c by {
        assert(s[k] == head[k]);
    }
    lemma_first_index_from_is(s, c, 0, i);
    assert(s.take(i) =~= head);
    assert(s.skip(i + 1) =~= tail);
}

/// Text without `c` cannot be split at `c`, and text that cannot be split holds no `c`.
pub proof fn lemma_split_once_none(s: Seq<char>, c: char)
    ensures
        split_once(s, c) is None <==> free_of(s, c),
{
    lemma_first_index_from(s, c, 0);
    if free_of(s, c) {
        lemma_first_index_from_is(s, c, 0, s.len() as int);
    }
}

/// Two parts joined by `c` split in two again, if neither part holds a `c`.
pub proof fn lemma_split_in_two_joined(head: Seq<char>, tail: Seq<char>, c: char)
    requires
        free_of(head, c),
        free_of(tail, c),
    ensures
        split_in_two(head + seq![c] + tail, c) == Some((head, tail)),
{
    lemma_split_once_joined(head, tail, c);
}

/// Splits `s` at its first `c`.
pub fn split_at_first<'a>(s: &'a str, c: char) -> (r: Option<(&'a str, &'a str)>)
    ensures
        match r {
            Some((head, tail)) => split_once(s@, c) == Some((head@, tail@)),
            None => split_once(s@, c) is None,
        },
{
    let v = chars_of(s);
    let i = find_from(&v, c, 0);
    if i < v.len() {
        let head = s.substring_char(0, i);
        let tail = s.substring_char(i + 1, v.len());
        assert(head@ =~= s@.take(i as int));
        assert(tail@ =~= s@.skip(i + 1));
        Some((head, tail))
    } else {
        None
    }
}

/// Whether `c` occurs in `s`.
pub fn holds_char(s: &str, c: char) -> (r: bool)
    ensures
        r == !free_of(s@, c),
{
    let v = chars_of(s);
    let i = find_from(&v, c, 0);
    proof {
        lemma_first_index_from(s@, c, 0);
    }
    i < v.len()
}

/// Splits `s` at its only `c`.
pub fn split_at_only<'a>(s: &'a str, c: char) -> (r: Option<(&'a str, &'a str)>)
    ensures
        match r {
            Some((head, tail)) => split_in_two(s@, c) == Some((head@, tail@)),
            None => split_in_two(s@, c) is None,
        },
{
    match split_at_first(s, c) {
        Some((head, tail)) => {
            if holds_char(tail, c) {
                None
            } else {
                Some((head, tail))
            }
        },
        None => None,
    }
}

/// The length of `s` in bytes, as UTF-8 encodes it.
pub open spec fn byte_len(s: Seq<char>) -> nat {
    encode_utf8(s).len()
}

/// ASCII text has one byte for each character.
pub proof fn lemma_ascii_byte_len(s: Seq<char>)
    requires
        is_ascii_chars(s),
    ensures
        byte_len(s) == s.len(),
{
    is_ascii_chars_encode_utf8(s);
}

} // verus!
