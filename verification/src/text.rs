//! Text as sequences of characters: searching, cutting and rebuilding.
//!
//! Contracts speak of `Seq<char>`, the view of `str` and `String`. The code
//! that runs works on `Vec<char>`, which can be indexed in constant time.

use vstd::prelude::*;
use vstd::std_specs::iter::IteratorSpec;

verus! {

/// `needle` stands in `hay` at index `i`.
pub open spec fn occurs_at(hay: Seq<char>, needle: Seq<char>, i: int) -> bool {
    &&& 0 <= i
    &&& i + needle.len() <= hay.len()
    &&& hay.subrange(i, i + needle.len()) == needle
}

/// `needle` stands somewhere in `hay`.
pub open spec fn contains_seq(hay: Seq<char>, needle: Seq<char>) -> bool {
    exists|i: int| occurs_at(hay, needle, i)
}

/// The first index at or after `from` at which `needle` stands in `hay`.
pub open spec fn first_index_from(hay: Seq<char>, needle: Seq<char>, from: int) -> Option<int>
    decreases hay.len() + 1 - from,
{
    if from < 0 || from + needle.len() > hay.len() {
        None
    } else if occurs_at(hay, needle, from) {
        Some(from)
    } else {
        first_index_from(hay, needle, from + 1)
    }
}

/// `s` with every occurrence of `pattern` replaced by `with`, the occurrences
/// taken from the left and not overlapping. What a replacement puts in is not
/// searched again.
pub open spec fn replace_all(s: Seq<char>, pattern: Seq<char>, with: Seq<char>) -> Seq<char>
    decreases s.len(),
{
    if s.len() == 0 || pattern.len() == 0 {
        s
    } else if occurs_at(s, pattern, 0) {
        with + replace_all(s.subrange(pattern.len() as int, s.len() as int), pattern, with)
    } else {
        seq![s[0]] + replace_all(s.subrange(1, s.len() as int), pattern, with)
    }
}

/// `first_index_from` finds the least index that is not below `from`, and
/// finds one whenever there is one.
pub proof fn lemma_first_index_from(hay: Seq<char>, needle: Seq<char>, from: int)
    requires
        0 <= from,
    ensures
        match first_index_from(hay, needle, from) {
            Some(i) => {
                &&& from <= i
                &&& occurs_at(hay, needle, i)
                &&& forall|j: int| from <= j < i ==> !occurs_at(hay, needle, j)
            },
            None => forall|j: int| from <= j ==> !occurs_at(hay, needle, j),
        },
    decreases hay.len() + 1 - from,
{
    if from + needle.len() > hay.len() {
    } else if occurs_at(hay, needle, from) {
    } else {
        lemma_first_index_from(hay, needle, from + 1);
    }
}

/// A text contains a needle exactly when a search from its start finds one.
pub proof fn lemma_contains_is_found(hay: Seq<char>, needle: Seq<char>)
    ensures
        contains_seq(hay, needle) <==> first_index_from(hay, needle, 0) is Some,
{
    lemma_first_index_from(hay, needle, 0);
    if contains_seq(hay, needle) {
        let i = choose|i: int| occurs_at(hay, needle, i);
        assert(occurs_at(hay, needle, i));
    }
}

/// The characters of `s`, in order.
pub fn to_chars(s: &str) -> (chars: Vec<char>)
    ensures
        chars@ == s@,
{
    let mut chars: Vec<char> = Vec::new();
    for c in it: s.chars()
        invariant
            it.seq() == s@,
            chars@ == it.seq().take(it.index()),
    {
        chars.push(c);
    }
    chars
}

/// Trusted: `String::push` appends the one character to the end of the
/// string and changes nothing else.
pub assume_specification[ String::push ](s: &mut String, ch: char)
    ensures
        final(s)@ == old(s)@.push(ch),
;

/// `s` in lower case, as `str::to_lowercase` writes it: by the Unicode
/// lower-case mapping, which no short formula gives.
pub uninterp spec fn lowercased(s: Seq<char>) -> Seq<char>;

/// Trusted: `str::to_lowercase` returns the lower-case form of its argument.
/// The form depends on the characters of the argument alone.
pub assume_specification[ str::to_lowercase ](s: &str) -> (lower: String)
    ensures
        lower@ == lowercased(s@),
;

/// The string made of `chars[start..end]`.
pub fn to_string(chars: &Vec<char>, start: usize, end: usize) -> (s: String)
    requires
        start <= end <= chars.len(),
    ensures
        s@ == chars@.subrange(start as int, end as int),
{
    let mut s = String::new();
    let mut i: usize = start;
    while i < end
        invariant
            start <= i <= end <= chars.len(),
            s@ == chars@.subrange(start as int, i as int),
        decreases end - i,
    {
        s.push(chars[i]);
        i += 1;
    }
    s
}

/// Whether `needle` stands in `hay` at index `i`.
pub fn matches_at(hay: &Vec<char>, needle: &Vec<char>, i: usize) -> (found: bool)
    ensures
        found == occurs_at(hay@, needle@, i as int),
{
    if needle.len() > hay.len() || i > hay.len() - needle.len() {
        return false;
    }
    let mut k: usize = 0;
    while k < needle.len()
        invariant
            i + needle.len() <= hay.len(),
            k <= needle.len(),
            forall|j: int| 0 <= j < k ==> hay@[i + j] == needle@[j],
        decreases needle.len() - k,
    {
        if hay[i + k] != needle[k] {
            assert(hay@.subrange(i as int, i + needle.len())[k as int] == hay@[i + k]);
            return false;
        }
        k += 1;
    }
    assert(hay@.subrange(i as int, i + needle.len()) =~= needle@);
    true
}

/// The first index at or after `from` at which `needle` stands in `hay`.
pub fn find_from(hay: &Vec<char>, needle: &Vec<char>, from: usize) -> (found: Option<usize>)
    ensures
        match found {
            Some(i) => first_index_from(hay@, needle@, from as int) == Some(i as int),
            None => first_index_from(hay@, needle@, from as int) is None,
        },
{
    if needle.len() > hay.len() || from > hay.len() - needle.len() {
        return None;
    }
    let last: usize = hay.len() - needle.len();
    let mut i: usize = from;
    loop
        invariant
            last == hay.len() - needle.len(),
            from <= i <= last,
            first_index_from(hay@, needle@, from as int) == first_index_from(
                hay@,
                needle@,
                i as int,
            ),
        decreases last - i,
    {
        if matches_at(hay, needle, i) {
            return Some(i);
        }
        if i == last {
            assert(first_index_from(hay@, needle@, i + 1) is None);
            return None;
        }
        i += 1;
    }
}

/// Whether `needle` stands somewhere in `hay`.
pub fn contains(hay: &Vec<char>, needle: &Vec<char>) -> (found: bool)
    ensures
        found == contains_seq(hay@, needle@),
{
    proof {
        lemma_contains_is_found(hay@, needle@);
    }
    find_from(hay, needle, 0).is_some()
}

/// Appends `src[start..end]` to `dst`.
pub fn push_range(dst: &mut Vec<char>, src: &Vec<char>, start: usize, end: usize)
    requires
        start <= end <= src.len(),
    ensures
        final(dst)@ == old(dst)@ + src@.subrange(start as int, end as int),
{
    let mut i: usize = start;
    while i < end
        invariant
            start <= i <= end <= src.len(),
            dst@ == old(dst)@ + src@.subrange(start as int, i as int),
        decreases end - i,
    {
        dst.push(src[i]);
        i += 1;
    }
}

/// `chars[start..]` with every occurrence of `pattern` replaced by `with`.
pub fn replace(chars: &Vec<char>, start: usize, end: usize, pattern: &Vec<char>, with: &Vec<char>) -> (out: Vec<char>)
    requires
        start <= end <= chars.len(),
    ensures
        out@ == replace_all(chars@.subrange(start as int, end as int), pattern@, with@),
{
    let mut out: Vec<char> = Vec::new();
    if pattern.len() == 0 {
        push_range(&mut out, chars, start, end);
        return out;
    }
    let ghost whole = chars@.subrange(start as int, end as int);
    let mut i: usize = start;
    while i < end
        invariant
            start <= i <= end <= chars.len(),
            pattern.len() > 0,
            whole == chars@.subrange(start as int, end as int),
            replace_all(whole, pattern@, with@) == out@ + replace_all(
                chars@.subrange(i as int, end as int),
                pattern@,
                with@,
            ),
        decreases end - i,
    {
        let ghost rest = chars@.subrange(i as int, end as int);
        let ghost before = out@;
        if pattern.len() <= end - i && matches_at(chars, pattern, i) {
            proof {
                assert(rest.subrange(0, pattern.len() as int) =~= chars@.subrange(
                    i as int,
                    i + pattern.len(),
                ));
                assert(rest.subrange(pattern.len() as int, rest.len() as int) =~= chars@.subrange(
                    i + pattern.len(),
                    end as int,
                ));
            }
            push_range(&mut out, with, 0, with.len());
            i += pattern.len();
            proof {
                assert(with@.subrange(0, with.len() as int) =~= with@);
                assert(out@ + replace_all(chars@.subrange(i as int, end as int), pattern@, with@)
                    =~= before + (with@ + replace_all(
                    chars@.subrange(i as int, end as int),
                    pattern@,
                    with@,
                )));
            }
        } else {
            proof {
                if occurs_at(rest, pattern@, 0) {
                    assert(rest.subrange(0, pattern.len() as int) =~= chars@.subrange(
                        i as int,
                        i + pattern.len(),
                    ));
                }
                assert(rest.subrange(1, rest.len() as int) =~= chars@.subrange(
                    i + 1,
                    end as int,
                ));
            }
            out.push(chars[i]);
            i += 1;
            proof {
                assert(out@ + replace_all(chars@.subrange(i as int, end as int), pattern@, with@)
                    =~= before + (seq![rest[0]] + replace_all(
                    chars@.subrange(i as int, end as int),
                    pattern@,
                    with@,
                )));
            }
        }
    }
    assert(chars@.subrange(end as int, end as int) =~= Seq::<char>::empty());
    assert(out@ + Seq::<char>::empty() =~= out@);
    out
}

} // verus!
