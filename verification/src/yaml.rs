//! The YAML reader that decodes a rule's frontmatter block.
//!
//! The frontmatter grammar (which keys exist, their defaults, how a
//! comma-separated field is normalized) is this library's own verified logic;
//! only reading a field out of the YAML text is taken on trust. Each lookup
//! depends on its text and key alone, so each gets a name: the parser's
//! contract states exactly which fields decode and what the rule is built
//! from, in terms of these names.

use vstd::prelude::*;

use crate::source_file::opt_views;

verus! {

/// The text parses as YAML and its top level is a mapping.
pub uninterp spec fn spec_yaml_mapping(doc: Seq<char>) -> bool;

/// The mapping has an entry under this key.
pub uninterp spec fn spec_yaml_has_field(doc: Seq<char>, key: Seq<char>) -> bool;

/// The entry under this key is YAML null.
pub uninterp spec fn spec_yaml_null_field(doc: Seq<char>, key: Seq<char>) -> bool;

/// The string under this key, when the entry exists and is a string.
pub uninterp spec fn spec_yaml_string_field(doc: Seq<char>, key: Seq<char>) -> Option<Seq<char>>;

/// The boolean under this key, when the entry exists and is a boolean.
pub uninterp spec fn spec_yaml_bool_field(doc: Seq<char>, key: Seq<char>) -> Option<bool>;

/// The strings under this key, when the entry exists and is a sequence
/// whose items are all strings.
pub uninterp spec fn spec_yaml_string_list_field(doc: Seq<char>, key: Seq<char>) -> Option<
    Seq<Seq<char>>,
>;

/// Relies on serde_yaml::from_str and Value::is_mapping: whether the text
/// parses and its top level is a mapping.
#[verifier::external_body]
pub fn yaml_is_mapping(doc: &str) -> (r: bool)
    ensures
        r == spec_yaml_mapping(doc@),
{
    serde_yaml::from_str::<serde_yaml::Value>(doc)
        .map(|v| v.is_mapping())
        .unwrap_or(false)
}

/// Relies on serde_yaml::from_str and Value::get: whether the mapping has an
/// entry under the key.
#[verifier::external_body]
pub fn yaml_has_field(doc: &str, key: &str) -> (r: bool)
    ensures
        r == spec_yaml_has_field(doc@, key@),
{
    serde_yaml::from_str::<serde_yaml::Value>(doc)
        .map(|v| v.get(key).is_some())
        .unwrap_or(false)
}

/// Relies on serde_yaml::from_str, Value::get and Value::is_null: whether
/// the entry under the key is YAML null.
#[verifier::external_body]
pub fn yaml_null_field(doc: &str, key: &str) -> (r: bool)
    ensures
        r == spec_yaml_null_field(doc@, key@),
{
    serde_yaml::from_str::<serde_yaml::Value>(doc)
        .map(|v| v.get(key).is_some_and(|f| f.is_null()))
        .unwrap_or(false)
}

/// Relies on serde_yaml::from_str, Value::get and Value::as_str: the string
/// under the key, when the entry exists and is a string.
#[verifier::external_body]
pub fn yaml_string_field(doc: &str, key: &str) -> (r: Option<String>)
    ensures
        crate::markdown_based::opt_view(r) == spec_yaml_string_field(doc@, key@),
{
    serde_yaml::from_str::<serde_yaml::Value>(doc)
        .ok()
        .and_then(|v| v.get(key).and_then(|f| f.as_str().map(|s| s.to_string())))
}

/// Relies on serde_yaml::from_str, Value::get and Value::as_bool: the
/// boolean under the key, when the entry exists and is a boolean.
#[verifier::external_body]
pub fn yaml_bool_field(doc: &str, key: &str) -> (r: Option<bool>)
    ensures
        r == spec_yaml_bool_field(doc@, key@),
{
    serde_yaml::from_str::<serde_yaml::Value>(doc)
        .ok()
        .and_then(|v| v.get(key).and_then(|f| f.as_bool()))
}

/// Relies on serde_yaml::from_str, Value::get, Value::as_sequence and
/// Value::as_str: the strings under the key, when the entry exists and is a
/// sequence of strings.
#[verifier::external_body]
pub fn yaml_string_list_field(doc: &str, key: &str) -> (r: Option<Vec<String>>)
    ensures
        opt_views(r) == spec_yaml_string_list_field(doc@, key@),
{
    let v: serde_yaml::Value = serde_yaml::from_str(doc).ok()?;
    let items = v.get(key)?.as_sequence()?;
    let mut out: Vec<String> = Vec::new();
    for item in items {
        out.push(item.as_str()?.to_string());
    }
    Some(out)
}

} // verus!
