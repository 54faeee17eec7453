//! Reading structured values out of TOML text. Parsing is done by the
//! `toml` crate; the verifier sees only the named results below.

use vstd::prelude::*;

verus! {

/// The optional string field `key` of the TOML document `doc`: `None` when
/// the document does not parse or the field is present but not a string;
/// `Some(None)` when the document parses and the field is absent;
/// `Some(Some(v))` when it is the string `v`. A function of the text alone.
pub uninterp spec fn toml_string_field_of(doc: Seq<char>, key: Seq<char>) -> Option<
    Option<Seq<char>>,
>;

/// The key/value pairs of a TOML document whose values are all strings,
/// sorted by key; `None` when the document does not parse as such a table.
/// A function of the text alone.
pub uninterp spec fn toml_string_map_of(doc: Seq<char>) -> Option<Seq<(Seq<char>, Seq<char>)>>;

/// Relies on `toml::from_str::<toml::Value>`, `toml::Value::get` and
/// `toml::Value::as_str`: what a document parses to, and what a key is
/// bound to, is a function of the document text and the key.
#[verifier::external_body]
pub(crate) fn toml_string_field(doc: &str, key: &str) -> (r: Option<Option<String>>)
    ensures
        r.deep_view() == toml_string_field_of(doc@, key@),
{
    let v: toml::Value = match toml::from_str(doc) {
        Ok(v) => v,
        Err(_) => return None,
    };
    match v.get(key) {
        None => Some(None),
        Some(f) => match f.as_str() {
            Some(s) => Some(Some(s.to_owned())),
            None => None,
        },
    }
}

/// Relies on `toml::from_str::<BTreeMap<String, String>>`: what a document
/// parses to is a function of its text, and a B-tree map hands its pairs
/// out sorted by key.
#[verifier::external_body]
pub(crate) fn toml_string_map(doc: &str) -> (r: Option<Vec<(String, String)>>)
    ensures
        r.deep_view() == toml_string_map_of(doc@),
{
    match toml::from_str::<std::collections::BTreeMap<String, String>>(doc) {
        Ok(m) => Some(m.into_iter().collect()),
        Err(_) => None,
    }
}

} // verus!
