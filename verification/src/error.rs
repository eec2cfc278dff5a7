//! The library's error taxonomy. Malformed input (locale, key, or
//! configuration) is a caller error; a missing or unparsable source file is
//! a structural problem and is never retried against the fallback; a missing
//! translation is the one expected runtime condition.
use vstd::prelude::*;

verus! {

/// A translation error, as callers observe it.
#[derive(Debug)]
pub enum I18nError {
    /// The locale list given at construction was empty.
    EmptyLocales,
    /// A supplied locale does not match the locale-tag grammar.
    InvalidLocale { locale: String },
    /// A lookup key has no `namespace:field` shape.
    InvalidKey { key: String },
    /// No source file exists for this locale and namespace.
    NotFound { locale: String, namespace: String },
    /// A source file exists but could not be read.
    IoError { locale: String, namespace: String },
    /// A source file was read but its content failed to decode; the
    /// decoder's own message is preserved.
    ParseError { message: String },
    /// A source file carries an extension no decoder handles.
    UnsupportedExtension { extension: String },
    /// The key is well formed but neither the requested locale nor the
    /// fallback holds a string value for it.
    MissingTranslation { key: String },
}

/// The mathematical shape of an error, with every string as its view.
pub enum ErrorModel {
    EmptyLocalesM,
    InvalidLocaleM(Seq<char>),
    InvalidKeyM(Seq<char>),
    NotFoundM(Seq<char>, Seq<char>),
    IoErrorM(Seq<char>, Seq<char>),
    ParseErrorM(Seq<char>),
    UnsupportedExtensionM(Seq<char>),
    MissingTranslationM(Seq<char>),
}

impl View for I18nError {
    type V = ErrorModel;

    open spec fn view(&self) -> ErrorModel {
        match self {
            I18nError::EmptyLocales => ErrorModel::EmptyLocalesM,
            I18nError::InvalidLocale { locale } => ErrorModel::InvalidLocaleM(locale@),
            I18nError::InvalidKey { key } => ErrorModel::InvalidKeyM(key@),
            I18nError::NotFound { locale, namespace } => ErrorModel::NotFoundM(
                locale@,
                namespace@,
            ),
            I18nError::IoError { locale, namespace } => ErrorModel::IoErrorM(locale@, namespace@),
            I18nError::ParseError { message } => ErrorModel::ParseErrorM(message@),
            I18nError::UnsupportedExtension { extension } => ErrorModel::UnsupportedExtensionM(
                extension@,
            ),
            I18nError::MissingTranslation { key } => ErrorModel::MissingTranslationM(key@),
        }
    }
}

} // verus!
