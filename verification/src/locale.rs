//! Locale-tag validation and recognition of locale segments inside paths.
use vstd::prelude::*;

verus! {

/// True iff `s` is a locale tag: two lowercase ASCII letters, `-` or `_`,
/// then two uppercase ASCII letters, and nothing else (`en-US`, `pt_BR`).
pub open spec fn valid_locale(s: Seq<char>) -> bool {
    &&& s.len() == 5
    &&& 'a' <= s[0] <= 'z'
    &&& 'a' <= s[1] <= 'z'
    &&& (s[2] == '-' || s[2] == '_')
    &&& 'A' <= s[3] <= 'Z'
    &&& 'A' <= s[4] <= 'Z'
}

/// Locale validation, applied to every locale a caller supplies before it is
/// stored in configuration or used as a cache-key component.
pub fn is_locale(locale: &str) -> (r: bool)
    ensures
        r == valid_locale(locale@),
{
    let n = locale.unicode_len();
    if n != 5 {
        return false;
    }
    let c0 = locale.get_char(0);
    let c1 = locale.get_char(1);
    let c2 = locale.get_char(2);
    let c3 = locale.get_char(3);
    let c4 = locale.get_char(4);
    ('a' <= c0 && c0 <= 'z') && ('a' <= c1 && c1 <= 'z') && (c2 == '-' || c2 == '_') && ('A' <= c3
        && c3 <= 'Z') && ('A' <= c4 && c4 <= 'Z')
}

/// True iff a locale tag occurs in `s` starting at position `i`.
pub open spec fn locale_at(s: Seq<char>, i: int) -> bool {
    0 <= i && i + 5 <= s.len() && valid_locale(s.subrange(i, i + 5))
}

/// The leftmost position in `s`, at or after `from`, where a locale tag
/// occurs.
pub open spec fn first_locale_from(s: Seq<char>, from: int) -> Option<int>
    decreases s.len() - from,
{
    if from < 0 || from + 5 > s.len() {
        None
    } else if locale_at(s, from) {
        Some(from)
    } else {
        first_locale_from(s, from + 1)
    }
}

fn locale_here(s: &str, i: usize) -> (r: bool)
    requires
        i + 5 <= s@.len(),
        i <= usize::MAX - 5,
    ensures
        r == locale_at(s@, i as int),
{
    let c0 = s.get_char(i);
    let c1 = s.get_char(i + 1);
    let c2 = s.get_char(i + 2);
    let c3 = s.get_char(i + 3);
    let c4 = s.get_char(i + 4);
    let r = ('a' <= c0 && c0 <= 'z') && ('a' <= c1 && c1 <= 'z') && (c2 == '-' || c2 == '_') && ('A'
        <= c3 && c3 <= 'Z') && ('A' <= c4 && c4 <= 'Z');
    proof {
        let sub = s@.subrange(i as int, i as int + 5);
        assert(sub[0] == c0 && sub[1] == c1 && sub[2] == c2 && sub[3] == c3 && sub[4] == c4);
    }
    r
}

/// The leftmost locale tag occurring anywhere in `s`, as the directory walk
/// uses it to recognize the locale segment of a translation-file path.
pub fn extract_locale(s: &str) -> (r: Option<String>)
    ensures
        match r {
            Some(loc) => {
                &&& first_locale_from(s@, 0) is Some
                &&& loc@ == s@.subrange(
                    first_locale_from(s@, 0)->Some_0,
                    first_locale_from(s@, 0)->Some_0 + 5,
                )
                &&& valid_locale(loc@)
            },
            None => first_locale_from(s@, 0) is None,
        },
{
    let len = s.unicode_len();
    if len < 5 {
        return None;
    }
    let mut i: usize = 0;
    while i <= len - 5
        invariant
            len >= 5,
            i <= len - 4,
            len == s@.len(),
            first_locale_from(s@, 0) == first_locale_from(s@, i as int),
        decreases len - i,
    {
        if locale_here(s, i) {
            let tag = s.substring_char(i, i + 5);
            return Some(tag.to_owned());
        }
        i += 1;
    }
    None
}

} // verus!
