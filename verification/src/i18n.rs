//! The translator façade: configuration, the lookup state machine with its
//! one-hop fallback policy, and cache invalidation for reloads.
//!
//! The library never touches the disk. Where a lookup needs a document that
//! is not cached, [`I18n::translate`] answers [`Step::Need`], and the host
//! reads the file and hands its text to [`Cache::get_or_load`] before asking
//! again; at most two such rounds can occur for one lookup, one per locale.
use vstd::prelude::*;

use crate::cache::Cache;
use crate::cache::cache_view;
use crate::cache::empty_cache_map;
use crate::config::Config;
use crate::document::resolve;
use crate::document::resolve_text;
use crate::error::ErrorModel;
use crate::error::I18nError;
use crate::interpolate::Args;
use crate::interpolate::args_view;
use crate::interpolate::interp;
use crate::interpolate::interpolate;
use crate::locale::is_locale;
use crate::locale::valid_locale;
use crate::path::normalize;
use crate::path::normalized;
use crate::strutil::split_on;
use crate::strutil::split_str;
use crate::strutil::str_eq;

verus! {

/// Manages languages: validates locales, serves lookups from the cache, and
/// retries a missed key once against the fallback locale.
pub struct I18n {
    /// The locale consulted when the current one lacks a key.
    pub fallback: String,
    /// The current locale, used by `t`.
    pub locale: String,
    /// The directory translation files live under, in normalized form.
    pub directory: String,
    /// The locales this translator serves.
    pub locales: Vec<String>,
    /// The shared translation cache.
    pub cache: Cache,
}

/// What one `translate` call answers: a finished translation, a failure, or
/// a request that the host load one namespace file and ask again.
pub enum Step {
    Done(String),
    Fail(I18nError),
    Need { locale: String, namespace: String },
}

/// The mathematical shape of a step.
pub enum StepModel {
    DoneM(Seq<char>),
    FailM(ErrorModel),
    NeedM(Seq<char>, Seq<char>),
}

impl View for Step {
    type V = StepModel;

    open spec fn view(&self) -> StepModel {
        match self {
            Step::Done(s) => StepModel::DoneM(s@),
            Step::Fail(e) => StepModel::FailM(e@),
            Step::Need { locale, namespace } => StepModel::NeedM(locale@, namespace@),
        }
    }
}

/// The views of a list of locale strings.
pub open spec fn locale_views(ls: Seq<String>) -> Seq<Seq<char>> {
    ls.map_values(|s: String| s@)
}

/// The first entry that fails locale validation, scanning left to right.
pub open spec fn first_bad_locale(ls: Seq<Seq<char>>) -> Option<Seq<char>>
    decreases ls.len(),
{
    if ls.len() == 0 {
        None
    } else if !valid_locale(ls[0]) {
        Some(ls[0])
    } else {
        first_bad_locale(ls.skip(1))
    }
}

/// Why a configuration is rejected, or nothing when it is accepted: the
/// first invalid entry of `locales`, then an invalid `fallback`, then an
/// invalid `default`, then an empty locale list.
pub open spec fn config_error(c: Config) -> Option<ErrorModel> {
    if first_bad_locale(locale_views(c.locales@)) is Some {
        Some(ErrorModel::InvalidLocaleM(first_bad_locale(locale_views(c.locales@))->Some_0))
    } else if c.fallback is Some && !valid_locale(c.fallback->0@) {
        Some(ErrorModel::InvalidLocaleM(c.fallback->0@))
    } else if c.default is Some && !valid_locale(c.default->0@) {
        Some(ErrorModel::InvalidLocaleM(c.default->0@))
    } else if c.locales@.len() == 0 {
        Some(ErrorModel::EmptyLocalesM)
    } else {
        None
    }
}

impl I18n {
    /// A translator is well formed when it serves at least one locale and
    /// every stored locale tag is valid. Construction establishes this and
    /// every method preserves it.
    pub open spec fn wf(self) -> bool {
        &&& self.locales@.len() >= 1
        &&& forall|i: int|
            0 <= i < self.locales@.len() ==> valid_locale(#[trigger] self.locales@[i]@)
        &&& valid_locale(self.locale@)
        &&& valid_locale(self.fallback@)
    }

    /// Builds a translator from a configuration, rejecting it exactly when
    /// `config_error` says so and before any file is touched. The directory
    /// string is stored in normalized form; the host checks beforehand that
    /// it names an existing directory. The current locale defaults to
    /// `default`, the fallback to `fallback`, each falling back to the first
    /// entry of `locales`; the cache starts empty.
    pub fn new(options: Config) -> (r: Result<I18n, I18nError>)
        ensures
            match r {
                Ok(t) => {
                    &&& config_error(options) is None
                    &&& t.wf()
                    &&& t.directory@ == normalized(options.directory@)
                    &&& t.locales == options.locales
                    &&& t.locale@ == (match options.default {
                        Some(d) => d@,
                        None => options.locales@[0]@,
                    })
                    &&& t.fallback@ == (match options.fallback {
                        Some(f) => f@,
                        None => options.locales@[0]@,
                    })
                    &&& cache_view(t.cache) == empty_cache_map()
                },
                Err(e) => config_error(options) == Some(e@),
            },
    {
        let ghost views = locale_views(options.locales@);
        let n = options.locales.len();
        let mut i: usize = 0;
        proof {
            assert(views.skip(0) =~= views);
        }
        while i < n
            invariant
                i <= n,
                n == options.locales@.len(),
                views == locale_views(options.locales@),
                first_bad_locale(views) == first_bad_locale(views.skip(i as int)),
                forall|j: int| 0 <= j < i ==> valid_locale(#[trigger] views[j]),
            decreases n - i,
        {
            proof {
                assert(views.skip(i as int)[0] == views[i as int]);
                assert(views.skip(i as int).skip(1) =~= views.skip(i as int + 1));
            }
            if !is_locale(options.locales[i].as_str()) {
                return Err(I18nError::InvalidLocale { locale: options.locales[i].clone() });
            }
            i += 1;
        }
        proof {
            assert(views.skip(n as int) =~= Seq::<Seq<char>>::empty());
        }
        if let Some(f) = &options.fallback {
            if !is_locale(f.as_str()) {
                return Err(I18nError::InvalidLocale { locale: f.clone() });
            }
        }
        if let Some(d) = &options.default {
            if !is_locale(d.as_str()) {
                return Err(I18nError::InvalidLocale { locale: d.clone() });
            }
        }
        if options.locales.len() == 0 {
            return Err(I18nError::EmptyLocales);
        }
        let directory = normalize(options.directory.as_str());
        let locale = match options.default {
            Some(d) => d,
            None => options.locales[0].clone(),
        };
        let fallback = match options.fallback {
            Some(f) => f,
            None => options.locales[0].clone(),
        };
        let built = I18n { fallback, locale, directory, locales: options.locales, cache: Cache::new() };
        proof {
            assert(first_bad_locale(views) is None);
            assert forall|j: int| 0 <= j < built.locales@.len() implies valid_locale(
                (#[trigger] built.locales@[j])@,
            ) by {
                assert(views[j] == built.locales@[j]@);
            }
            assert(built.wf());
        }
        Ok(built)
    }

    /// Sets the fallback locale: a no-op when the value is unchanged,
    /// validated and assigned otherwise.
    pub fn set_fallback(&mut self, locale: String) -> (r: Result<(), I18nError>)
        requires
            old(self).wf(),
        ensures
            final(self).wf(),
            final(self).locale == old(self).locale,
            final(self).directory == old(self).directory,
            final(self).locales == old(self).locales,
            final(self).cache == old(self).cache,
            old(self).fallback@ == locale@ ==> r is Ok && final(self).fallback == old(self).fallback,
            old(self).fallback@ != locale@ && valid_locale(locale@) ==> r is Ok && final(self).fallback == locale,
            old(self).fallback@ != locale@ && !valid_locale(locale@) ==> (r matches Err(e) && e@
                == ErrorModel::InvalidLocaleM(locale@) && final(self).fallback == old(self).fallback),
    {
        if !str_eq(self.fallback.as_str(), locale.as_str()) {
            if is_locale(locale.as_str()) {
                self.fallback = locale;
            } else {
                return Err(I18nError::InvalidLocale { locale });
            }
        }
        Ok(())
    }

    /// Sets the current locale: a no-op when the value is unchanged,
    /// validated and assigned otherwise.
    pub fn set_locale(&mut self, locale: String) -> (r: Result<(), I18nError>)
        requires
            old(self).wf(),
        ensures
            final(self).wf(),
            final(self).fallback == old(self).fallback,
            final(self).directory == old(self).directory,
            final(self).locales == old(self).locales,
            final(self).cache == old(self).cache,
            old(self).locale@ == locale@ ==> r is Ok && final(self).locale == old(self).locale,
            old(self).locale@ != locale@ && valid_locale(locale@) ==> r is Ok && final(self).locale
                == locale,
            old(self).locale@ != locale@ && !valid_locale(locale@) ==> (r matches Err(e) && e@
                == ErrorModel::InvalidLocaleM(locale@) && final(self).locale == old(self).locale),
    {
        if !str_eq(self.locale.as_str(), locale.as_str()) {
            if is_locale(locale.as_str()) {
                self.locale = locale;
            } else {
                return Err(I18nError::InvalidLocale { locale });
            }
        }
        Ok(())
    }

    /// True iff at least one namespace document is cached for `locale`.
    pub fn has(&self, locale: &str) -> (r: bool)
        ensures
            r == exists|ns: Seq<char>| cache_view(self.cache).contains_key((locale@, ns)),
    {
        self.cache.contains(locale)
    }

    /// Invalidates cache entries at one of three granularities: with a
    /// locale and a namespace, exactly that entry; with a locale alone,
    /// every entry of that locale; with no locale, everything. Reloading
    /// what was invalidated is the host's walk: it re-reads the files and
    /// hands them back through the cache's load path.
    pub fn reload(&mut self, locale: Option<&str>, key: Option<&str>)
        ensures
            match (locale, key) {
                (Some(l), Some(k)) => cache_view(final(self).cache) == cache_view(
                    old(self).cache,
                ).remove((l@, k@)),
                (Some(l), None) => cache_view(final(self).cache) =~= cache_view(
                    old(self).cache,
                ).remove_keys(Set::new(|kv: (Seq<char>, Seq<char>)| kv.0 == l@)),
                (None, _) => cache_view(final(self).cache) == empty_cache_map(),
            },
            final(self).fallback == old(self).fallback,
            final(self).locale == old(self).locale,
            final(self).directory == old(self).directory,
            final(self).locales == old(self).locales,
    {
        match (locale, key) {
            (Some(l), Some(k)) => {
                self.cache.invalidate_one(l, k);
            },
            (Some(l), None) => {
                self.cache.invalidate(l);
            },
            (None, _) => {
                self.cache.invalidate_all();
            },
        }
    }

    /// Decides whether a walked file belongs to this translator: its path
    /// must contain a locale segment, and that locale must equal `only` when
    /// one is given, or be among the served locales otherwise. Returns the
    /// locale and the namespace (the file name without its extension). A
    /// path whose file name has no extension names no namespace and is
    /// skipped.
    pub fn should_load(&self, path: &str, only: Option<&str>) -> (r: Option<(String, String)>)
        ensures
            match r {
                Some(p) => should_load_model(*self, path@, opt_str_view(only)) == Some(
                    (p.0@, p.1@),
                ),
                None => should_load_model(*self, path@, opt_str_view(only)) is None,
            },
    {
        let loc = match crate::locale::extract_locale(path) {
            Some(l) => l,
            None => {
                return None;
            },
        };
        let wanted = match only {
            Some(l) => str_eq(loc.as_str(), l),
            None => self.serves(loc.as_str()),
        };
        if !wanted {
            return None;
        }
        let stem = match crate::path::strip_extension(path) {
            Some(s) => s,
            None => {
                return None;
            },
        };
        let stem_len = stem.as_str().unicode_len();
        let namespace = match crate::path::rfind_char(stem.as_str(), '/') {
            Some(i) => {
                proof {
                    crate::path::lemma_rfind(stem@, '/');
                }
                let ns = stem.as_str().substring_char(i + 1, stem_len);
                proof {
                    assert(ns@ =~= crate::path::last_component(stem@));
                }
                ns.to_owned()
            },
            None => stem,
        };
        Some((loc, namespace))
    }

    /// True iff `locale` is among the locales this translator serves.
    pub fn serves(&self, locale: &str) -> (r: bool)
        ensures
            r == exists|i: int|
                0 <= i < self.locales@.len() && (#[trigger] self.locales@[i])@ == locale@,
    {
        let n = self.locales.len();
        let mut i: usize = 0;
        while i < n
            invariant
                i <= n,
                n == self.locales@.len(),
                forall|j: int| 0 <= j < i ==> (#[trigger] self.locales@[j])@ != locale@,
            decreases n - i,
        {
            if str_eq(self.locales[i].as_str(), locale) {
                return true;
            }
            i += 1;
        }
        false
    }

    /// Translates `key` in the current locale.
    pub fn t(&self, key: String, args: Option<&Args>) -> (r: Step)
        requires
            self.wf(),
        ensures
            r@ == translate_model(*self, self.locale@, key@, deref_args(args)),
    {
        self.translate(self.locale.clone(), key, args)
    }

    /// One round of the lookup state machine. The locale is validated and
    /// the key split into namespace and field path; then the namespace's
    /// document is looked up in the cache for the locale, and on a field
    /// miss once more for the fallback locale. A locale whose document is
    /// not cached yet makes the call answer `Need`; everything else ends in
    /// `Done` with the interpolated string, or `Fail` with the exact error
    /// `translate_model` names.
    pub fn translate(&self, locale: String, key: String, args: Option<&Args>) -> (r: Step)
        requires
            self.wf(),
        ensures
            r@ == translate_model(*self, locale@, key@, deref_args(args)),
    {
        if !is_locale(locale.as_str()) {
            return Step::Fail(I18nError::InvalidLocale { locale });
        }
        let parts = split_str(key.as_str(), ':');
        proof {
            assert(parts@.map_values(|t: String| t@)[0] == parts@[0]@);
            if parts@.len() >= 2 {
                assert(parts@.map_values(|t: String| t@)[1] == parts@[1]@);
            }
        }
        if parts.len() < 2 || parts[0].as_str().unicode_len() == 0 {
            return Step::Fail(I18nError::InvalidKey { key });
        }
        let ns = &parts[0];
        let rest = &parts[1];
        match self.cache.get(locale.as_str(), ns.as_str()) {
            None => Step::Need { locale, namespace: ns.clone() },
            Some(doc) => {
                match resolve(&doc, rest.as_str()) {
                    Some(leaf) => Step::Done(finish(leaf, args)),
                    None => {
                        if str_eq(locale.as_str(), self.fallback.as_str()) {
                            return Step::Fail(I18nError::MissingTranslation { key });
                        }
                        match self.cache.get(self.fallback.as_str(), ns.as_str()) {
                            None => Step::Need {
                                locale: self.fallback.clone(),
                                namespace: ns.clone(),
                            },
                            Some(doc2) => {
                                match resolve(&doc2, rest.as_str()) {
                                    Some(leaf) => Step::Done(finish(leaf, args)),
                                    None => Step::Fail(I18nError::MissingTranslation { key }),
                                }
                            },
                        }
                    },
                }
            },
        }
    }
}

/// Applies interpolation to a resolved leaf: with arguments, every token is
/// substituted; without, the leaf is returned unchanged.
pub open spec fn apply_args(leaf: Seq<char>, args: Option<Args>) -> Seq<char> {
    match args {
        Some(a) => interp(leaf, args_view(a)),
        None => leaf,
    }
}

/// The arguments behind an optional reference, as passed to the model.
pub open spec fn deref_args(args: Option<&Args>) -> Option<Args> {
    match args {
        Some(a) => Some(*a),
        None => None,
    }
}

/// The view behind an optional string reference.
pub open spec fn opt_str_view(o: Option<&str>) -> Option<Seq<char>> {
    match o {
        Some(s) => Some(s@),
        None => None,
    }
}

fn finish(leaf: String, args: Option<&Args>) -> (r: String)
    ensures
        r@ == apply_args(leaf@, deref_args(args)),
{
    match args {
        Some(a) => interpolate(leaf.as_str(), a),
        None => leaf,
    }
}

/// What one locale's cached state answers for a lookup: `None` when its
/// document is not cached, otherwise the resolver's verdict on the field
/// path.
pub open spec fn attempt(t: I18n, locale: Seq<char>, ns: Seq<char>, rest: Seq<char>) -> Option<
    Option<Seq<char>>,
> {
    if !cache_view(t.cache).contains_key((locale, ns)) {
        None
    } else {
        Some(resolve_text(cache_view(t.cache)[(locale, ns)], rest))
    }
}

/// The lookup state machine, exactly as `translate` implements it: an
/// invalid locale and a malformed key fail at once; a field miss in the
/// requested locale's document is retried once against the fallback locale;
/// a miss at the end of that chain is a missing translation; a locale whose
/// document is not cached asks the host to load it.
pub open spec fn translate_model(
    t: I18n,
    locale: Seq<char>,
    key: Seq<char>,
    args: Option<Args>,
) -> StepModel {
    if !valid_locale(locale) {
        StepModel::FailM(ErrorModel::InvalidLocaleM(locale))
    } else {
        let parts = split_on(key, ':');
        if parts.len() < 2 || parts[0].len() == 0 {
            StepModel::FailM(ErrorModel::InvalidKeyM(key))
        } else {
            let ns = parts[0];
            let rest = parts[1];
            match attempt(t, locale, ns, rest) {
                None => StepModel::NeedM(locale, ns),
                Some(outcome) => match outcome {
                    Some(leaf) => StepModel::DoneM(apply_args(leaf, args)),
                    None => {
                        if locale == t.fallback@ {
                            StepModel::FailM(ErrorModel::MissingTranslationM(key))
                        } else {
                            match attempt(t, t.fallback@, ns, rest) {
                                None => StepModel::NeedM(t.fallback@, ns),
                                Some(outcome2) => match outcome2 {
                                    Some(leaf) => StepModel::DoneM(apply_args(leaf, args)),
                                    None => StepModel::FailM(
                                        ErrorModel::MissingTranslationM(key),
                                    ),
                                },
                            }
                        }
                    },
                },
            }
        }
    }
}

/// Law: clearing the cache forces a reload. After `reload(None, None)` the
/// cache is empty, so every well-formed lookup, whatever key was cached
/// before, asks the host to read its file from disk again.
pub proof fn lemma_cleared_cache_reloads(
    t: I18n,
    locale: Seq<char>,
    key: Seq<char>,
    args: Option<Args>,
)
    requires
        cache_view(t.cache) == empty_cache_map(),
        valid_locale(locale),
        split_on(key, ':').len() >= 2,
        split_on(key, ':')[0].len() != 0,
    ensures
        translate_model(t, locale, key, args) == StepModel::NeedM(locale, split_on(key, ':')[0]),
{
    let ns = split_on(key, ':')[0];
    assert(!cache_view(t.cache).contains_key((locale, ns)));
}

/// Law: the fallback serves a missed key. When the requested locale's
/// document is cached but misses the field path, and the fallback locale's
/// document is cached and resolves it to a leaf, the lookup returns that
/// leaf, interpolated, without error.
pub proof fn lemma_fallback_serves_missed_key(
    t: I18n,
    locale: Seq<char>,
    key: Seq<char>,
    args: Option<Args>,
    leaf: Seq<char>,
)
    requires
        valid_locale(locale),
        locale != t.fallback@,
        split_on(key, ':').len() >= 2,
        split_on(key, ':')[0].len() != 0,
        attempt(t, locale, split_on(key, ':')[0], split_on(key, ':')[1]) == Some(
            Option::<Seq<char>>::None,
        ),
        attempt(t, t.fallback@, split_on(key, ':')[0], split_on(key, ':')[1]) == Some(Some(leaf)),
    ensures
        translate_model(t, locale, key, args) == StepModel::DoneM(apply_args(leaf, args)),
{
}

/// Law: a key missing at both ends of the fallback chain is a missing
/// translation. When the requested locale's document misses the field path,
/// and either the requested locale is the fallback itself or the fallback's
/// document misses it too, the lookup fails with `MissingTranslation` naming
/// the original key.
pub proof fn lemma_missing_at_both_ends(
    t: I18n,
    locale: Seq<char>,
    key: Seq<char>,
    args: Option<Args>,
)
    requires
        valid_locale(locale),
        split_on(key, ':').len() >= 2,
        split_on(key, ':')[0].len() != 0,
        attempt(t, locale, split_on(key, ':')[0], split_on(key, ':')[1]) == Some(
            Option::<Seq<char>>::None,
        ),
        locale == t.fallback@ || attempt(t, t.fallback@, split_on(key, ':')[0], split_on(key, ':')[1])
            == Some(Option::<Seq<char>>::None),
    ensures
        translate_model(t, locale, key, args) == StepModel::FailM(
            ErrorModel::MissingTranslationM(key),
        ),
{
}

/// Law: a lookup settles once its documents are cached. When the requested
/// locale's namespace document is cached, and the fallback locale's is too,
/// a well-formed lookup never asks the host for a file: it ends in `Done` or
/// `Fail`. With the load path caching exactly the document a `Need` named,
/// this bounds the host's loop at one load per locale of the chain.
pub proof fn lemma_cached_lookup_settles(
    t: I18n,
    locale: Seq<char>,
    key: Seq<char>,
    args: Option<Args>,
)
    requires
        cache_view(t.cache).contains_key((locale, split_on(key, ':')[0])),
        cache_view(t.cache).contains_key((t.fallback@, split_on(key, ':')[0])),
    ensures
        !(translate_model(t, locale, key, args) is NeedM),
{
}

/// What the host builds after `should_load` accepts a path: the locale
/// segment found in it, and the file name without its extension.
pub open spec fn should_load_model(t: I18n, path: Seq<char>, only: Option<Seq<char>>) -> Option<
    (Seq<char>, Seq<char>),
> {
    match crate::locale::first_locale_from(path, 0) {
        None => None,
        Some(i) => {
            let loc = path.subrange(i, i + 5);
            let wanted = match only {
                Some(l) => loc == l,
                None => exists|j: int|
                    0 <= j < t.locales@.len() && (#[trigger] t.locales@[j])@ == loc,
            };
            if !wanted {
                None
            } else {
                match crate::path::stem_of(path) {
                    Some(stem) => Some((loc, crate::path::last_component(stem))),
                    None => None,
                }
            }
        },
    }
}

} // verus!
