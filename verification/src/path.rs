//! Verified path-string helpers: separator normalization, extension
//! handling, and the candidate list used to probe for a translation file.
//!
//! Paths are plain strings here; `/` is the separator. Windows-style
//! backslashes are rewritten to `/` by [`normalize`] before any other
//! path logic sees them.
use vstd::prelude::*;

verus! {

/// `s` with every backslash replaced by a forward slash.
pub open spec fn slash_of(s: Seq<char>) -> Seq<char>
    decreases s.len(),
{
    if s.len() == 0 {
        s
    } else if s[0] == '\\' {
        seq!['/'] + slash_of(s.skip(1))
    } else {
        seq![s[0]] + slash_of(s.skip(1))
    }
}

/// `s` with every `/./` collapsed to `/`, scanning left to right and never
/// rescanning the replacement, exactly as `str::replace` does.
pub open spec fn undot_of(s: Seq<char>) -> Seq<char>
    decreases s.len(),
{
    if s.len() >= 3 && s[0] == '/' && s[1] == '.' && s[2] == '/' {
        seq!['/'] + undot_of(s.skip(3))
    } else if s.len() == 0 {
        s
    } else {
        seq![s[0]] + undot_of(s.skip(1))
    }
}

/// The normalized form of a path string: backslashes become forward
/// slashes, then `/./` segments collapse to `/`.
pub open spec fn normalized(s: Seq<char>) -> Seq<char> {
    undot_of(slash_of(s))
}

/// Rewrites a path to forward slashes and collapses `/./` segments.
pub fn normalize(path: &str) -> (r: String)
    ensures
        r@ == normalized(path@),
{
    let slashed = replace_backslashes(path);
    collapse_dot_segments(slashed.as_str())
}

fn replace_backslashes(s: &str) -> (r: String)
    ensures
        r@ == slash_of(s@),
{
    let len = s.unicode_len();
    let mut out = String::new();
    let mut i: usize = 0;
    proof {
        assert(s@.skip(0) =~= s@);
    }
    while i < len
        invariant
            i <= len,
            len == s@.len(),
            slash_of(s@) =~= out@ + slash_of(s@.skip(i as int)),
        decreases len - i,
    {
        let c = s.get_char(i);
        if c == '\\' {
            out.append("/");
            proof {
                reveal_strlit("/");
            }
        } else {
            let piece = s.substring_char(i, i + 1);
            out.append(piece);
        }
        proof {
            assert(s@.skip(i as int).skip(1) =~= s@.skip(i as int + 1));
            assert(s@.skip(i as int)[0] == s@[i as int]);
        }
        i += 1;
    }
    proof {
        assert(s@.skip(len as int) =~= Seq::<char>::empty());
    }
    out
}

fn collapse_dot_segments(s: &str) -> (r: String)
    ensures
        r@ == undot_of(s@),
{
    let len = s.unicode_len();
    let mut out = String::new();
    let mut i: usize = 0;
    proof {
        assert(s@.skip(0) =~= s@);
    }
    while i < len
        invariant
            i <= len,
            len == s@.len(),
            undot_of(s@) =~= out@ + undot_of(s@.skip(i as int)),
        decreases len - i,
    {
        let dotted = len > 2 && i < len - 2 && s.get_char(i) == '/' && s.get_char(i + 1) == '.'
            && s.get_char(i + 2) == '/';
        if dotted {
            out.append("/");
            proof {
                reveal_strlit("/");
                assert(s@.skip(i as int).skip(3) =~= s@.skip(i as int + 3));
                assert(s@.skip(i as int)[0] == s@[i as int]);
                assert(s@.skip(i as int)[1] == s@[i as int + 1]);
                assert(s@.skip(i as int)[2] == s@[i as int + 2]);
            }
            i += 3;
        } else {
            let piece = s.substring_char(i, i + 1);
            out.append(piece);
            proof {
                let tail = s@.skip(i as int);
                assert(tail.skip(1) =~= s@.skip(i as int + 1));
                assert(tail[0] == s@[i as int]);
                assert(tail.len() >= 3 ==> (tail[1] == s@[i as int + 1] && tail[2] == s@[i as int
                    + 2]));
            }
            i += 1;
        }
    }
    proof {
        assert(s@.skip(len as int) =~= Seq::<char>::empty());
    }
    out
}

/// Extra path-reading methods for string-like path values.
pub trait PathExt: View<V = Seq<char>> {
    /// The normalized form: forward slashes, `/./` segments collapsed.
    fn normalize(&self) -> (r: String)
        ensures
            r@ == normalized(self@),
    ;

    /// The extension, or the empty string when the path has none.
    fn get_extension(&self) -> (r: String)
        ensures
            r@ == extension_of(self@),
    ;
}

impl PathExt for str {
    fn normalize(&self) -> (r: String) {
        normalize(self)
    }

    fn get_extension(&self) -> (r: String) {
        get_extension(self)
    }
}

/// The position of the last occurrence of `c` in `s`.
pub open spec fn rfind(s: Seq<char>, c: char) -> Option<int>
    decreases s.len(),
{
    if s.len() == 0 {
        None
    } else if s[s.len() - 1] == c {
        Some(s.len() - 1)
    } else {
        rfind(s.drop_last(), c)
    }
}

pub proof fn lemma_rfind(s: Seq<char>, c: char)
    ensures
        match rfind(s, c) {
            Some(i) => 0 <= i < s.len() && s[i] == c && (forall|j: int|
                i < j < s.len() ==> s[j] != c),
            None => forall|j: int| 0 <= j < s.len() ==> s[j] != c,
        },
    decreases s.len(),
{
    if s.len() > 0 && s[s.len() - 1] != c {
        lemma_rfind(s.drop_last(), c);
        assert(forall|j: int| 0 <= j < s.len() - 1 ==> s[j] == s.drop_last()[j]);
    }
}

/// Scans `s` for the last occurrence of `c`.
pub fn rfind_char(s: &str, c: char) -> (r: Option<usize>)
    ensures
        match r {
            Some(i) => i < s@.len() && rfind(s@, c) == Some(i as int),
            None => rfind(s@, c) is None,
        },
{
    let len = s.unicode_len();
    let mut i: usize = len;
    proof {
        assert(s@.subrange(0, len as int) =~= s@);
    }
    while i > 0
        invariant
            i <= len,
            len == s@.len(),
            rfind(s@, c) == rfind(s@.subrange(0, i as int), c),
        decreases i,
    {
        i -= 1;
        if s.get_char(i) == c {
            proof {
                let prefix = s@.subrange(0, i as int + 1);
                assert(prefix[prefix.len() - 1] == c);
            }
            return Some(i);
        }
        proof {
            let prefix = s@.subrange(0, i as int + 1);
            assert(prefix[prefix.len() - 1] != c);
            assert(prefix.drop_last() =~= s@.subrange(0, i as int));
        }
    }
    proof {
        assert(s@.subrange(0, 0) =~= Seq::<char>::empty());
    }
    None
}

/// The final path component: everything after the last `/`, or all of `s`
/// when it has no `/`.
pub open spec fn last_component(s: Seq<char>) -> Seq<char> {
    match rfind(s, '/') {
        Some(i) => s.skip(i + 1),
        None => s,
    }
}

/// The extension of a path: the part of its final component after the last
/// dot, or empty when the component has no dot past its first character.
/// This follows how the standard library reads extensions, so a leading-dot
/// name such as `.gitignore` has none.
pub open spec fn extension_of(s: Seq<char>) -> Seq<char> {
    let comp = last_component(s);
    match rfind(comp, '.') {
        Some(i) => if i == 0 {
            Seq::<char>::empty()
        } else {
            comp.skip(i + 1)
        },
        None => Seq::<char>::empty(),
    }
}

/// Returns the extension of `path`, or the empty string when it has none.
pub fn get_extension(path: &str) -> (r: String)
    ensures
        r@ == extension_of(path@),
{
    proof {
        lemma_rfind(path@, '/');
    }
    let len = path.unicode_len();
    let comp_start: usize = match rfind_char(path, '/') {
        Some(i) => i + 1,
        None => 0,
    };
    let comp = path.substring_char(comp_start, len);
    proof {
        assert(comp@ =~= last_component(path@));
    }
    match rfind_char(comp, '.') {
        Some(i) => {
            if i == 0 {
                String::new()
            } else {
                let ext = comp.substring_char(i + 1, comp.unicode_len());
                proof {
                    assert(ext@ =~= extension_of(path@));
                }
                ext.to_owned()
            }
        },
        None => String::new(),
    }
}

/// The stem of a file name: everything before the last dot, defined only
/// when at least one character follows that dot. A name without such a dot
/// has no stem and cannot name a translation file.
pub open spec fn stem_of(s: Seq<char>) -> Option<Seq<char>> {
    match rfind(s, '.') {
        Some(i) => if i + 1 < s.len() {
            Some(s.subrange(0, i))
        } else {
            None
        },
        None => None,
    }
}

/// Splits the extension off a path, returning what precedes the last dot.
pub fn strip_extension(path: &str) -> (r: Option<String>)
    ensures
        match r {
            Some(stem) => stem_of(path@) == Some(stem@),
            None => stem_of(path@) is None,
        },
{
    proof {
        lemma_rfind(path@, '.');
    }
    let len = path.unicode_len();
    match rfind_char(path, '.') {
        Some(i) => {
            if i + 1 < len {
                let stem = path.substring_char(0, i);
                Some(stem.to_owned())
            } else {
                None
            }
        },
        None => None,
    }
}

} // verus!
