//! The translation cache: a concurrent map from `(locale, namespace)` to the
//! parsed document for that pair. The map itself is dashmap's; every call
//! into it goes through a trusted wrapper whose contract speaks of
//! `dash_entries`, the name for what the map holds. Everything above those
//! wrappers — insert-if-absent, invalidation, the load path — is verified.
//!
//! Entries live until explicitly invalidated: translation sets are small and
//! change only on deploy or reload, so there is no eviction.
use vstd::prelude::*;

use crate::document::Document;
use crate::error::I18nError;
use crate::formats::document_of;
use crate::formats::known_extension;
use crate::formats::parse_content;
use crate::strutil::str_eq;

verus! {

/// Declares dashmap's map type; the library sees its contents only through
/// `dash_entries`.
#[verifier::external_type_specification]
#[verifier::external_body]
#[verifier::reject_recursive_types(K)]
#[verifier::reject_recursive_types(V)]
#[verifier::reject_recursive_types(S)]
pub struct ExDashMap<K, V, S>(dashmap::DashMap<K, V, S>);

/// What a cache map holds: the documents, keyed by the views of the locale
/// and namespace strings.
pub uninterp spec fn dash_entries(m: dashmap::DashMap<(String, String), Document>) -> Map<
    (Seq<char>, Seq<char>),
    Document,
>;

/// What the host found on disk when asked for one namespace file: the
/// resolved file's extension and text, or that no candidate exists, or that
/// one exists but could not be read.
pub enum FileOutcome {
    Found { extension: String, content: String },
    Missing,
    Unreadable,
}

/// The concurrent translation cache.
pub struct Cache {
    inner: dashmap::DashMap<(String, String), Document>,
}

/// The empty cache contents.
pub open spec fn empty_cache_map() -> Map<(Seq<char>, Seq<char>), Document> {
    Map::<(Seq<char>, Seq<char>), Document>::empty()
}

/// The cache's contents as a map from key views to documents.
pub closed spec fn cache_view(c: Cache) -> Map<(Seq<char>, Seq<char>), Document> {
    dash_entries(c.inner)
}

impl Cache {
    /// Relies on dashmap::DashMap::new: creates an empty map.
    #[verifier::external_body]
    fn raw_new() -> (r: Self)
        ensures
            dash_entries(r.inner) == empty_cache_map(),
    {
        Cache { inner: dashmap::DashMap::new() }
    }

    /// Relies on dashmap::DashMap::get: returns the value stored under the
    /// key, if any; the returned document is a structural copy of the
    /// stored one.
    #[verifier::external_body]
    fn raw_get(&self, locale: &str, namespace: &str) -> (r: Option<Document>)
        ensures
            match r {
                Some(d) => dash_entries(self.inner).contains_key((locale@, namespace@))
                    && dash_entries(self.inner)[(locale@, namespace@)] == d,
                None => !dash_entries(self.inner).contains_key((locale@, namespace@)),
            },
    {
        self.inner.get(&(locale.to_owned(), namespace.to_owned())).map(|e| e.value().clone())
    }

    /// Relies on dashmap::DashMap::insert: binds the key to the value,
    /// replacing any earlier binding.
    #[verifier::external_body]
    fn raw_insert(&mut self, locale: &str, namespace: &str, doc: Document)
        ensures
            dash_entries(final(self).inner) == dash_entries(old(self).inner).insert(
                (locale@, namespace@),
                doc,
            ),
    {
        self.inner.insert((locale.to_owned(), namespace.to_owned()), doc);
    }

    /// Relies on dashmap::DashMap::remove: unbinds the key if it is bound.
    #[verifier::external_body]
    fn raw_remove(&mut self, locale: &str, namespace: &str)
        ensures
            dash_entries(final(self).inner) == dash_entries(old(self).inner).remove(
                (locale@, namespace@),
            ),
    {
        self.inner.remove(&(locale.to_owned(), namespace.to_owned()));
    }

    /// Relies on dashmap::DashMap::clear: unbinds every key.
    #[verifier::external_body]
    fn raw_clear(&mut self)
        ensures
            dash_entries(final(self).inner) == empty_cache_map(),
    {
        self.inner.clear();
    }

    /// Relies on dashmap::DashMap::iter: visits every entry once, in no
    /// promised order; so the keys come back as exactly the map's domain,
    /// without duplicates, in some order this contract leaves open.
    #[verifier::external_body]
    fn raw_keys(&self) -> (r: Vec<(String, String)>)
        ensures
            r@.map_values(|k: (String, String)| (k.0@, k.1@)).to_set() =~= dash_entries(
                self.inner,
            ).dom(),
            r@.map_values(|k: (String, String)| (k.0@, k.1@)).no_duplicates(),
    {
        self.inner.iter().map(|e| e.key().clone()).collect()
    }

    /// An empty cache.
    pub fn new() -> (r: Cache)
        ensures
            cache_view(r) == empty_cache_map(),
    {
        Cache::raw_new()
    }

    /// The cached document for `(locale, namespace)`, when one is present.
    /// This is the read-only hit path; it never touches the disk, so a
    /// caller that finds the document here is done without any file work.
    pub fn get(&self, locale: &str, namespace: &str) -> (r: Option<Document>)
        ensures
            match r {
                Some(d) => cache_view(*self).contains_key((locale@, namespace@)) && cache_view(
                    *self,
                )[(locale@, namespace@)] == d,
                None => !cache_view(*self).contains_key((locale@, namespace@)),
            },
    {
        self.raw_get(locale, namespace)
    }

    /// Returns the document for `(locale, namespace)`: the cached one when
    /// the key is present — the host's probe is then ignored, and the cache
    /// does not change — and otherwise the parse of what the host found,
    /// inserted before it is returned. A first successful parse for a key
    /// wins: a present key is never overwritten. A missing file, an
    /// unreadable file, or a failed parse leaves the cache unchanged and
    /// reports which of the three it was.
    pub fn get_or_load(&mut self, locale: &str, namespace: &str, fetched: FileOutcome) -> (r:
        Result<Document, I18nError>)
        ensures
            cache_view(*old(self)).contains_key((locale@, namespace@)) ==> {
                &&& r matches Ok(d) && d == cache_view(*old(self))[(locale@, namespace@)]
                &&& cache_view(*final(self)) == cache_view(*old(self))
            },
            !cache_view(*old(self)).contains_key((locale@, namespace@)) ==> match fetched {
                FileOutcome::Missing => {
                    &&& r matches Err(e) && e@ == crate::error::ErrorModel::NotFoundM(
                        locale@,
                        namespace@,
                    )
                    &&& cache_view(*final(self)) == cache_view(*old(self))
                },
                FileOutcome::Unreadable => {
                    &&& r matches Err(e) && e@ == crate::error::ErrorModel::IoErrorM(
                        locale@,
                        namespace@,
                    )
                    &&& cache_view(*final(self)) == cache_view(*old(self))
                },
                FileOutcome::Found { extension, content } => {
                    &&& !known_extension(extension@) ==> (r matches Err(e) && e@
                        == crate::error::ErrorModel::UnsupportedExtensionM(extension@)
                        && cache_view(*final(self)) == cache_view(*old(self)))
                    &&& known_extension(extension@) && document_of(content@, extension@)
                        is Some ==> (r matches Ok(d) && Some(d) == document_of(
                        content@,
                        extension@,
                    ) && cache_view(*final(self)) == cache_view(*old(self)).insert(
                        (locale@, namespace@),
                        d,
                    ))
                    &&& known_extension(extension@) && document_of(content@, extension@)
                        is None ==> (r matches Err(e) && e@ is ParseErrorM && cache_view(
                        *final(self),
                    ) == cache_view(*old(self)))
                },
            },
    {
        if let Some(d) = self.get(locale, namespace) {
            return Ok(d);
        }
        match fetched {
            FileOutcome::Missing => Err(
                I18nError::NotFound { locale: locale.to_owned(), namespace: namespace.to_owned() },
            ),
            FileOutcome::Unreadable => Err(
                I18nError::IoError { locale: locale.to_owned(), namespace: namespace.to_owned() },
            ),
            FileOutcome::Found { extension, content } => {
                match parse_content(content.as_str(), extension.as_str()) {
                    Ok(d) => {
                        self.raw_insert(locale, namespace, d);
                        match self.get(locale, namespace) {
                            Some(stored) => Ok(stored),
                            None => {
                                proof {
                                    assert(false);
                                }
                                Err(
                                    I18nError::NotFound {
                                        locale: locale.to_owned(),
                                        namespace: namespace.to_owned(),
                                    },
                                )
                            },
                        }
                    },
                    Err(e) => Err(e),
                }
            },
        }
    }

    /// Removes exactly the entry for `(locale, namespace)`.
    pub fn invalidate_one(&mut self, locale: &str, namespace: &str)
        ensures
            cache_view(*final(self)) == cache_view(*old(self)).remove((locale@, namespace@)),
    {
        self.raw_remove(locale, namespace);
    }

    /// Removes every entry whose locale is `locale`.
    pub fn invalidate(&mut self, locale: &str)
        ensures
            cache_view(*final(self)) =~= cache_view(*old(self)).remove_keys(
                Set::new(|k: (Seq<char>, Seq<char>)| k.0 == locale@),
            ),
    {
        let ghost view0 = cache_view(*self);
        let keys = self.raw_keys();
        let ghost keyviews = keys@.map_values(|k: (String, String)| (k.0@, k.1@));
        let n = keys.len();
        let mut i: usize = 0;
        while i < n
            invariant
                i <= n,
                n == keys@.len(),
                keyviews == keys@.map_values(|k: (String, String)| (k.0@, k.1@)),
                keyviews.no_duplicates(),
                keyviews.to_set() =~= view0.dom(),
                forall|kv: (Seq<char>, Seq<char>)| #[trigger]
                    view0.dom().contains(kv) ==> (cache_view(*self).dom().contains(kv) ==> cache_view(*self)[kv] == view0[kv]),
                forall|kv: (Seq<char>, Seq<char>)| #[trigger]
                    cache_view(*self).dom().contains(kv) ==> view0.dom().contains(kv),
                forall|j: int|
                    0 <= j < i && keyviews[j].0 == locale@ ==> !cache_view(*self).dom().contains(
                        #[trigger] keyviews[j],
                    ),
                forall|kv: (Seq<char>, Seq<char>)| #[trigger]
                    view0.dom().contains(kv) && kv.0 != locale@ ==> cache_view(*self).dom().contains(
                        kv,
                    ),
                forall|j: int|
                    i <= j < n && view0.dom().contains(#[trigger] keyviews[j]) ==> cache_view(
                        *self,
                    ).dom().contains(keyviews[j]),
            decreases n - i,
        {
            if str_eq(keys[i].0.as_str(), locale) {
                let ghost prev = cache_view(*self);
                let ghost removed = keyviews[i as int];
                self.raw_remove(keys[i].0.as_str(), keys[i].1.as_str());
                proof {
                    assert(removed == (keys@[i as int].0@, keys@[i as int].1@));
                    assert(cache_view(*self) == prev.remove(removed));
                    assert forall|kv: (Seq<char>, Seq<char>)|
                        cache_view(*self).dom().contains(kv) implies view0.dom().contains(kv)
                        && cache_view(*self)[kv] == view0[kv] by {
                        assert(prev.remove(removed).dom().contains(kv));
                        assert(prev.dom().contains(kv));
                        assert(kv != removed);
                        assert(view0.dom().contains(kv));
                        assert(cache_view(*self)[kv] == prev.remove(removed)[kv]);
                        assert(prev.remove(removed)[kv] == prev[kv]);
                        assert(prev[kv] == view0[kv]);
                    }
                    assert forall|j: int|
                        i + 1 <= j < n && view0.dom().contains(keyviews[j]) implies cache_view(
                        *self,
                    ).dom().contains(keyviews[j]) by {
                        assert(keyviews[j] != removed);
                        assert(prev.dom().contains(keyviews[j]));
                        assert(prev.remove(removed).dom().contains(keyviews[j]));
                    }
                }
            }
            i += 1;
        }
        proof {
            let target = view0.remove_keys(Set::new(|k: (Seq<char>, Seq<char>)| k.0 == locale@));
            assert forall|kv: (Seq<char>, Seq<char>)|
                cache_view(*self).dom().contains(kv) implies target.dom().contains(kv) by {
                assert(view0.dom().contains(kv));
                assert(keyviews.to_set().contains(kv));
                assert(keyviews.contains(kv));
                let j = choose|j: int| 0 <= j < keyviews.len() && keyviews[j] == kv;
                assert(keyviews[j].0 != locale@ ==> kv.0 != locale@);
                assert(kv.0 != locale@);
            }
            assert forall|kv: (Seq<char>, Seq<char>)|
                target.dom().contains(kv) implies cache_view(*self).dom().contains(kv) by {
                assert(view0.dom().contains(kv) && kv.0 != locale@);
            }
            assert(cache_view(*self) =~= target);
        }
    }

    /// Removes every entry.
    pub fn invalidate_all(&mut self)
        ensures
            cache_view(*final(self)) == empty_cache_map(),
    {
        self.raw_clear();
    }

    /// True iff at least one namespace is cached for `locale`.
    pub fn contains(&self, locale: &str) -> (r: bool)
        ensures
            r == exists|ns: Seq<char>| cache_view(*self).contains_key((locale@, ns)),
    {
        let keys = self.raw_keys();
        let ghost keyviews = keys@.map_values(|k: (String, String)| (k.0@, k.1@));
        let n = keys.len();
        let mut i: usize = 0;
        while i < n
            invariant
                i <= n,
                n == keys@.len(),
                keyviews == keys@.map_values(|k: (String, String)| (k.0@, k.1@)),
                keyviews.to_set() =~= cache_view(*self).dom(),
                forall|j: int| 0 <= j < i ==> keyviews[j].0 != locale@,
            decreases n - i,
        {
            if str_eq(keys[i].0.as_str(), locale) {
                proof {
                    assert(keyviews[i as int] == (keys@[i as int].0@, keys@[i as int].1@));
                    assert(keyviews.to_set().contains(keyviews[i as int]));
                    assert(cache_view(*self).contains_key((locale@, keyviews[i as int].1)));
                }
                return true;
            }
            i += 1;
        }
        proof {
            if exists|ns: Seq<char>| cache_view(*self).contains_key((locale@, ns)) {
                let ns = choose|ns: Seq<char>| cache_view(*self).contains_key((locale@, ns));
                assert(keyviews.to_set().contains((locale@, ns)));
                assert(keyviews.contains((locale@, ns)));
                let j = choose|j: int| 0 <= j < keyviews.len() && keyviews[j] == (locale@, ns);
                assert(keyviews[j].0 == locale@);
            }
        }
        false
    }

    /// True iff the cache holds nothing at all; the host consults this
    /// before an eager preload.
    pub fn is_empty(&self) -> (r: bool)
        ensures
            r == (cache_view(*self).dom() =~= Set::<(Seq<char>, Seq<char>)>::empty()),
    {
        let keys = self.raw_keys();
        let ghost keyviews = keys@.map_values(|k: (String, String)| (k.0@, k.1@));
        if keys.len() == 0 {
            proof {
                assert(keyviews.to_set() =~= Set::<(Seq<char>, Seq<char>)>::empty());
            }
            true
        } else {
            proof {
                assert(keyviews.to_set().contains(keyviews[0]));
            }
            false
        }
    }
}

} // verus!
