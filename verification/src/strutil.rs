//! Small verified string helpers: equality, scanning for a character, and
//! splitting, all specified over `Seq<char>` views.
use vstd::prelude::*;

verus! {

/// Equality of two string slices, decided character by character.
pub fn str_eq(a: &str, b: &str) -> (r: bool)
    ensures
        r == (a@ == b@),
{
    let alen = a.unicode_len();
    let blen = b.unicode_len();
    if alen != blen {
        return false;
    }
    let mut i: usize = 0;
    while i < alen
        invariant
            alen == a@.len(),
            alen == b@.len(),
            i <= alen,
            forall|j: int| 0 <= j < i ==> a@[j] == b@[j],
        decreases alen - i,
    {
        if a.get_char(i) != b.get_char(i) {
            return false;
        }
        i += 1;
    }
    proof {
        assert(a@ =~= b@);
    }
    true
}

/// The position of the first occurrence of `c` in `s` at or after `from`.
pub open spec fn find_from(s: Seq<char>, c: char, from: int) -> Option<int>
    decreases s.len() - from,
{
    if from < 0 || from >= s.len() {
        None
    } else if s[from] == c {
        Some(from)
    } else {
        find_from(s, c, from + 1)
    }
}

/// Scans `s` for the first occurrence of `c` at or after `from`.
pub fn find_char_from(s: &str, c: char, from: usize) -> (r: Option<usize>)
    requires
        from <= s@.len(),
    ensures
        match r {
            Some(i) => from <= i < s@.len() && find_from(s@, c, from as int) == Some(i as int),
            None => find_from(s@, c, from as int) is None,
        },
{
    let len = s.unicode_len();
    let mut i: usize = from;
    while i < len
        invariant
            from <= i <= len,
            len == s@.len(),
            find_from(s@, c, from as int) == find_from(s@, c, i as int),
        decreases len - i,
    {
        if s.get_char(i) == c {
            return Some(i);
        }
        i += 1;
    }
    None
}

/// The segments of `s` between occurrences of the separator `c`: splitting
/// never yields an empty list, and separators themselves are dropped.
pub open spec fn split_on(s: Seq<char>, c: char) -> Seq<Seq<char>>
    decreases s.len(),
    via split_on_decreases
{
    match find_from(s, c, 0) {
        Some(i) => seq![s.subrange(0, i)] + split_on(s.subrange(i + 1, s.len() as int), c),
        None => seq![s],
    }
}

#[via_fn]
proof fn split_on_decreases(s: Seq<char>, c: char) {
    lemma_find_from_bounds(s, c, 0);
}

proof fn lemma_find_from_bounds(s: Seq<char>, c: char, from: int)
    requires
        0 <= from,
    ensures
        match find_from(s, c, from) {
            Some(i) => from <= i < s.len() && s[i] == c && (forall|j: int|
                from <= j < i ==> s[j] != c),
            None => forall|j: int| from <= j < s.len() ==> s[j] != c,
        },
    decreases s.len() - from,
{
    if from < s.len() && s[from] != c {
        lemma_find_from_bounds(s, c, from + 1);
    }
}

/// Splits `s` at every occurrence of `c`.
pub fn split_str(s: &str, c: char) -> (r: Vec<String>)
    ensures
        r@.map_values(|t: String| t@) =~= split_on(s@, c),
        r@.len() >= 1,
{
    let mut parts: Vec<String> = Vec::new();
    let mut start: usize = 0;
    let len = s.unicode_len();
    let ghost whole = s@;
    proof {
        assert(s@.subrange(0, len as int) =~= s@);
        assert(parts@.map_values(|t: String| t@) =~= Seq::<Seq<char>>::empty());
    }
    loop
        invariant
            start <= len,
            len == s@.len(),
            whole == s@,
            split_on(whole, c) =~= parts@.map_values(|t: String| t@) + split_on(
                s@.subrange(start as int, len as int),
                c,
            ),
        decreases len - start,
    {
        proof {
            lemma_find_from_bounds(s@, c, start as int);
        }
        match find_char_from(s, c, start) {
            Some(i) => {
                let part = s.substring_char(start, i);
                parts.push(part.to_owned());
                proof {
                    let tail = s@.subrange(start as int, len as int);
                    lemma_find_subrange(s@, c, start as int, i as int);
                    assert(find_from(tail, c, 0) == Some(i - start as int));
                    assert(tail.subrange(0, i - start as int) =~= s@.subrange(
                        start as int,
                        i as int,
                    ));
                    assert(tail.subrange(i - start as int + 1, tail.len() as int) =~= s@.subrange(
                        i as int + 1,
                        len as int,
                    ));
                }
                start = i + 1;
            },
            None => {
                let part = s.substring_char(start, len);
                parts.push(part.to_owned());
                proof {
                    let tail = s@.subrange(start as int, len as int);
                    lemma_find_subrange_none(s@, c, start as int);
                    assert(find_from(tail, c, 0) is None);
                    assert(split_on(tail, c) =~= seq![tail]);
                    assert(parts@.map_values(|t: String| t@) =~= split_on(whole, c));
                }
                return parts;
            },
        }
    }
}

/// Relates a search in a subrange of `s` to a search in `s` itself.
proof fn lemma_find_subrange(s: Seq<char>, c: char, start: int, i: int)
    requires
        0 <= start <= i < s.len(),
        find_from(s, c, start) == Some(i),
    ensures
        find_from(s.subrange(start, s.len() as int), c, 0) == Some(i - start),
{
    lemma_find_from_bounds(s, c, start);
    let tail = s.subrange(start, s.len() as int);
    lemma_find_from_bounds(tail, c, 0);
    assert(tail[i - start] == c);
    match find_from(tail, c, 0) {
        Some(j) => {
            assert(s[j + start] == c);
            assert(j >= i - start);
            assert(j <= i - start);
        },
        None => {
            assert(tail[i - start] == c);
        },
    }
}

proof fn lemma_find_subrange_none(s: Seq<char>, c: char, start: int)
    requires
        0 <= start <= s.len(),
        find_from(s, c, start) is None,
    ensures
        find_from(s.subrange(start, s.len() as int), c, 0) is None,
{
    lemma_find_from_bounds(s, c, start);
    let tail = s.subrange(start, s.len() as int);
    lemma_find_from_bounds(tail, c, 0);
    match find_from(tail, c, 0) {
        Some(j) => {
            assert(s[j + start] == c);
        },
        None => {
        },
    }
}

} // verus!
