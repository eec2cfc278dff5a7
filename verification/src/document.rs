//! The generic key-value document that one translation file parses into,
//! and the resolver that walks a dotted field path down to a leaf string.
use vstd::prelude::*;

use crate::strutil::split_on;
use crate::strutil::split_str;
use crate::strutil::str_eq;

verus! {

/// One value inside a translation document: a string leaf, a nested table,
/// or some other scalar (number, boolean, array, null) that a lookup cannot
/// use as a translation. Lookups that end on `Other` count as misses, which
/// sends them down the fallback path rather than failing outright.
pub enum Node {
    Text(String),
    Table(Document),
    Other,
}

/// A key-value document, loaded verbatim from one translation file. Entries
/// keep the order the parser produced; a lookup takes the first entry whose
/// key matches.
pub struct Document {
    pub entries: Vec<(String, Node)>,
}

impl Clone for Node {
    /// A structural copy, made only inside trusted wrappers; the wrapper
    /// that hands a cached document out states what the copy is.
    #[verifier::external_body]
    fn clone(&self) -> Self {
        match self {
            Node::Text(s) => Node::Text(s.clone()),
            Node::Table(d) => Node::Table(d.clone()),
            Node::Other => Node::Other,
        }
    }
}

impl Clone for Document {
    /// A structural copy, made only inside trusted wrappers.
    #[verifier::external_body]
    fn clone(&self) -> Self {
        Document {
            entries: self.entries.iter().map(|e| (e.0.clone(), e.1.clone())).collect(),
        }
    }
}

/// The first value bound to `key` in an entry list.
pub open spec fn table_get(entries: Seq<(String, Node)>, key: Seq<char>) -> Option<Node>
    decreases entries.len(),
{
    if entries.len() == 0 {
        None
    } else if entries[0].0@ == key {
        Some(entries[0].1)
    } else {
        table_get(entries.skip(1), key)
    }
}

/// Field lookup on an arbitrary value: only a table has fields.
pub open spec fn value_get(v: Node, key: Seq<char>) -> Option<Node> {
    match v {
        Node::Table(d) => table_get(d.entries@, key),
        _ => None,
    }
}

/// Walks the remaining fragments of a dotted path from an intermediate
/// lookup result; any miss along the way makes the whole walk miss.
pub open spec fn chain_get(start: Option<Node>, frags: Seq<Seq<char>>) -> Option<Node>
    decreases frags.len(),
{
    if frags.len() == 0 {
        start
    } else {
        match start {
            Some(v) => chain_get(value_get(v, frags[0]), frags.skip(1)),
            None => None,
        }
    }
}

/// The value a dotted path addresses in a document, fragment by fragment.
pub open spec fn resolve_value(d: Document, frags: Seq<Seq<char>>) -> Option<Node> {
    if frags.len() == 0 {
        None
    } else {
        chain_get(table_get(d.entries@, frags[0]), frags.skip(1))
    }
}

/// What resolving the field part of a lookup key yields: the leaf string the
/// dotted path addresses, or nothing when a fragment misses or the leaf is
/// not a string.
pub open spec fn resolve_text(d: Document, rest: Seq<char>) -> Option<Seq<char>> {
    match resolve_value(d, split_on(rest, '.')) {
        Some(v) => match v {
            Node::Text(s) => Some(s@),
            _ => None,
        },
        None => None,
    }
}

/// Looks `key` up in a document's top-level entries.
pub fn lookup_entry<'a>(d: &'a Document, key: &str) -> (r: Option<&'a Node>)
    ensures
        match r {
            Some(v) => table_get(d.entries@, key@) == Some(*v),
            None => table_get(d.entries@, key@) is None,
        },
{
    let n = d.entries.len();
    let mut i: usize = 0;
    proof {
        assert(d.entries@.skip(0) =~= d.entries@);
    }
    while i < n
        invariant
            i <= n,
            n == d.entries@.len(),
            table_get(d.entries@, key@) == table_get(d.entries@.skip(i as int), key@),
        decreases n - i,
    {
        proof {
            assert(d.entries@.skip(i as int)[0] == d.entries@[i as int]);
            assert(d.entries@.skip(i as int).skip(1) =~= d.entries@.skip(i as int + 1));
        }
        if str_eq(d.entries[i].0.as_str(), key) {
            return Some(&d.entries[i].1);
        }
        i += 1;
    }
    None
}

/// Resolves the field part of a lookup key (`greeting`, or `a.b.c` for a
/// nested field) to the leaf string it addresses. A missing fragment or a
/// non-string leaf is a miss, reported as `None` so that the caller can try
/// the fallback locale.
pub fn resolve(d: &Document, rest: &str) -> (r: Option<String>)
    ensures
        match r {
            Some(s) => resolve_text(*d, rest@) == Some(s@),
            None => resolve_text(*d, rest@) is None,
        },
{
    let frags = split_str(rest, '.');
    let ghost fragviews = frags@.map_values(|t: String| t@);
    let mut cur: Option<&Node> = lookup_entry(d, frags[0].as_str());
    let mut j: usize = 1;
    proof {
        assert(fragviews.skip(1).skip(0) =~= fragviews.skip(1));
    }
    while j < frags.len()
        invariant
            1 <= j <= frags@.len(),
            fragviews == frags@.map_values(|t: String| t@),
            resolve_value(*d, fragviews) == chain_get(
                match cur {
                    Some(v) => Some(*v),
                    None => None,
                },
                fragviews.skip(j as int),
            ),
        decreases frags@.len() - j,
    {
        proof {
            assert(fragviews.skip(j as int)[0] == fragviews[j as int]);
            assert(fragviews.skip(j as int).skip(1) =~= fragviews.skip(j as int + 1));
        }
        cur = match cur {
            Some(v) => match v {
                Node::Table(dd) => lookup_entry(dd, frags[j].as_str()),
                _ => None,
            },
            None => None,
        };
        j += 1;
    }
    proof {
        assert(fragviews.skip(j as int) =~= Seq::<Seq<char>>::empty());
    }
    match cur {
        Some(v) => match v {
            Node::Text(s) => Some(s.clone()),
            _ => None,
        },
        None => None,
    }
}

} // verus!
