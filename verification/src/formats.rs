//! Decoding translation files. The decoders themselves are outside crates;
//! each is called through one trusted wrapper whose result is named by an
//! uninterpreted function of the input text, since a parse is a function of
//! the text alone. The dispatch on the file extension, and the candidate
//! list used to probe for a file on disk, are verified here.
use vstd::prelude::*;

use crate::document::Document;
use crate::document::Node;
use crate::error::I18nError;
use crate::strutil::str_eq;

verus! {

/// Declares serde_json's value tree so that the conversion below may take
/// it; the library never looks inside such a value.
#[verifier::external_type_specification]
#[verifier::external_body]
pub struct ExJsonValue(serde_json::Value);

/// Declares toml's value tree; opaque to the library.
#[verifier::external_type_specification]
#[verifier::external_body]
pub struct ExTomlValue(toml::Value);

/// Declares the YAML value tree behind serde_yml; opaque to the library.
#[verifier::external_type_specification]
#[verifier::external_body]
pub struct ExYamlValue(serde_yml::Value);

/// The document that JSON text parses to, or nothing when it is not a JSON
/// object of a translation document's shape.
pub uninterp spec fn json_document(s: Seq<char>) -> Option<Document>;

/// The document that TOML text parses to, or nothing when it does not parse
/// as a table.
pub uninterp spec fn toml_document(s: Seq<char>) -> Option<Document>;

/// The document that YAML text parses to, or nothing when it does not parse
/// as a string-keyed mapping.
pub uninterp spec fn yaml_document(s: Seq<char>) -> Option<Document>;

/// Converts a parsed JSON value tree into the library's document values:
/// strings stay strings, objects become tables, every other scalar or array
/// becomes `Other`. Called only from `parse_json`'s body.
#[verifier::external_body]
fn value_from_json(v: serde_json::Value) -> Node {
    match v {
        serde_json::Value::String(s) => Node::Text(s),
        serde_json::Value::Object(m) => Node::Table(
            Document { entries: m.into_iter().map(|(k, x)| (k, value_from_json(x))).collect() },
        ),
        _ => Node::Other,
    }
}

/// Relies on serde_json::from_str: decodes JSON text into a string-keyed
/// object, deterministically in the text, failing on anything that is not
/// an object at the top level; the decoder's message is preserved on
/// failure. The converted result is named `json_document`.
#[verifier::external_body]
fn parse_json(content: &str) -> (r: Result<Document, String>)
    ensures
        r is Ok <==> json_document(content@) is Some,
        r is Ok ==> Some(r->Ok_0) == json_document(content@),
{
    match serde_json::from_str::<serde_json::Map<String, serde_json::Value>>(content) {
        Ok(m) => Ok(Document { entries: m.into_iter().map(|(k, x)| (k, value_from_json(x))).collect() }),
        Err(e) => Err(e.to_string()),
    }
}

/// Converts a parsed TOML value tree into the library's document values;
/// called only from `parse_toml`'s body.
#[verifier::external_body]
fn value_from_toml(v: toml::Value) -> Node {
    match v {
        toml::Value::String(s) => Node::Text(s),
        toml::Value::Table(t) => Node::Table(
            Document { entries: t.into_iter().map(|(k, x)| (k, value_from_toml(x))).collect() },
        ),
        _ => Node::Other,
    }
}

/// Relies on toml::from_str: decodes TOML text into a table,
/// deterministically in the text; the decoder's message is preserved on
/// failure. The converted result is named `toml_document`.
#[verifier::external_body]
fn parse_toml(content: &str) -> (r: Result<Document, String>)
    ensures
        r is Ok <==> toml_document(content@) is Some,
        r is Ok ==> Some(r->Ok_0) == toml_document(content@),
{
    match toml::from_str::<toml::Table>(content) {
        Ok(t) => Ok(Document { entries: t.into_iter().map(|(k, x)| (k, value_from_toml(x))).collect() }),
        Err(e) => Err(e.to_string()),
    }
}

/// Converts a parsed YAML value tree into the library's document values;
/// the mapping type keys every entry by a string, so nested mappings convert
/// entry by entry. Called only from `parse_yaml`'s body.
#[verifier::external_body]
fn value_from_yaml(v: serde_yml::Value) -> Node {
    match v {
        serde_yml::Value::String(s) => Node::Text(s),
        serde_yml::Value::Mapping(m) => Node::Table(
            Document { entries: m.into_iter().map(|(k, x)| (k, value_from_yaml(x))).collect() },
        ),
        _ => Node::Other,
    }
}

/// Relies on serde_yml::from_str: decodes YAML text into a string-keyed
/// mapping, deterministically in the text, failing on any other top-level
/// shape; the decoder's message is preserved on failure. The converted
/// result is named `yaml_document`.
#[verifier::external_body]
fn parse_yaml(content: &str) -> (r: Result<Document, String>)
    ensures
        r is Ok <==> yaml_document(content@) is Some,
        r is Ok ==> Some(r->Ok_0) == yaml_document(content@),
{
    match serde_yml::from_str::<serde_yml::Mapping>(content) {
        Ok(m) => Ok(Document { entries: m.into_iter().map(|(k, x)| (k, value_from_yaml(x))).collect() }),
        Err(e) => Err(e.to_string()),
    }
}

/// True iff `ext` names a format a decoder handles.
pub open spec fn known_extension(ext: Seq<char>) -> bool {
    ||| ext == seq!['j', 's', 'o', 'n']
    ||| ext == seq!['t', 'o', 'm', 'l']
    ||| ext == seq!['y', 'a', 'm', 'l']
    ||| ext == seq!['y', 'm', 'l']
}

/// The document that `content` decodes to under the format `ext` names;
/// nothing when the extension is unknown or the content fails to decode.
pub open spec fn document_of(content: Seq<char>, ext: Seq<char>) -> Option<Document> {
    if ext == seq!['j', 's', 'o', 'n'] {
        json_document(content)
    } else if ext == seq!['t', 'o', 'm', 'l'] {
        toml_document(content)
    } else if ext == seq!['y', 'a', 'm', 'l'] || ext == seq!['y', 'm', 'l'] {
        yaml_document(content)
    } else {
        None
    }
}

/// Decodes `content` with the decoder the extension names: `json` is JSON,
/// `toml` is TOML, `yaml` and `yml` are YAML. Any other extension is
/// refused; a decoding failure preserves the decoder's message.
pub fn parse_content(content: &str, ext: &str) -> (r: Result<Document, I18nError>)
    ensures
        !known_extension(ext@) ==> (r matches Err(e) && e@ matches
            crate::error::ErrorModel::UnsupportedExtensionM(x) && x == ext@),
        known_extension(ext@) && document_of(content@, ext@) is Some ==> (r matches Ok(d) && Some(d)
            == document_of(content@, ext@)),
        known_extension(ext@) && document_of(content@, ext@) is None ==> (r matches Err(e) && e@ is
            ParseErrorM),
{
    proof {
        reveal_strlit("json");
        reveal_strlit("toml");
        reveal_strlit("yaml");
        reveal_strlit("yml");
        assert("json"@ =~= seq!['j', 's', 'o', 'n']);
        assert("toml"@ =~= seq!['t', 'o', 'm', 'l']);
        assert("yaml"@ =~= seq!['y', 'a', 'm', 'l']);
        assert("yml"@ =~= seq!['y', 'm', 'l']);
    }
    if str_eq(ext, "json") {
        match parse_json(content) {
            Ok(d) => Ok(d),
            Err(message) => Err(I18nError::ParseError { message }),
        }
    } else if str_eq(ext, "toml") {
        match parse_toml(content) {
            Ok(d) => Ok(d),
            Err(message) => Err(I18nError::ParseError { message }),
        }
    } else if str_eq(ext, "yaml") || str_eq(ext, "yml") {
        match parse_yaml(content) {
            Ok(d) => Ok(d),
            Err(message) => Err(I18nError::ParseError { message }),
        }
    } else {
        Err(I18nError::UnsupportedExtension { extension: ext.to_owned() })
    }
}

/// The candidate files probed for a namespace reference, in order: first the
/// bare path, then the path with each known extension appended.
pub fn candidate_paths(file: &str) -> (r: Vec<String>)
    ensures
        r@.len() == 5,
        r@[0]@ == file@,
        r@[1]@ == file@ + ".json"@,
        r@[2]@ == file@ + ".toml"@,
        r@[3]@ == file@ + ".yaml"@,
        r@[4]@ == file@ + ".yml"@,
{
    let mut out: Vec<String> = Vec::new();
    out.push(file.to_owned());
    let mut with_json = file.to_owned();
    with_json.append(".json");
    out.push(with_json);
    let mut with_toml = file.to_owned();
    with_toml.append(".toml");
    out.push(with_toml);
    let mut with_yaml = file.to_owned();
    with_yaml.append(".yaml");
    out.push(with_yaml);
    let mut with_yml = file.to_owned();
    with_yml.append(".yml");
    out.push(with_yml);
    out
}

} // verus!
