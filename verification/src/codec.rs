//! The TOML boundary of the registry: the two trusted declarations through
//! which the persisted document is read and written.

use vstd::prelude::*;
use crate::order::views;

verus! {

/// The top-level field `key` of the TOML document `doc`, read as an array of
/// strings: `None` when the document does not parse, the field is missing, or
/// the field is not an array of strings.
pub uninterp spec fn toml_string_list_of(doc: Seq<char>, key: Seq<char>) -> Option<Seq<Seq<char>>>;

/// Reads the top-level field `key` of the TOML document `text` as an array of
/// strings. Relies on `str::parse::<toml::Table>` (toml's document parser)
/// and on `toml::Value::{get, as_array, as_str}`; the result is a function of
/// the two arguments alone.
#[verifier::external_body]
pub fn toml_string_list(text: &str, key: &str) -> (r: Option<Vec<String>>)
    ensures
        r is Some <==> toml_string_list_of(text@, key@) is Some,
        r matches Some(v) ==> toml_string_list_of(text@, key@) == Some(views(v@)),
{
    let doc: toml::Table = match text.parse() {
        Ok(d) => d,
        Err(_) => return None,
    };
    let entries = doc.get(key)?.as_array()?;
    let mut out: Vec<String> = Vec::new();
    for entry in entries {
        out.push(String::from(entry.as_str()?));
    }
    Some(out)
}

/// Renders two string lists as a TOML document with the top-level array
/// fields `hosts` and `targets`. Relies on `toml::to_string_pretty`, and for
/// the contract on toml's parser reading back exactly the strings its
/// serializer wrote; serializing string arrays cannot fail.
#[verifier::external_body]
pub fn toml_render_registry(hosts: &Vec<String>, targets: &Vec<String>) -> (r: String)
    ensures
        toml_string_list_of(r@, "hosts"@) == Some(views(hosts@)),
        toml_string_list_of(r@, "targets"@) == Some(views(targets@)),
{
    let mut host_values: Vec<toml::Value> = Vec::new();
    for h in hosts {
        host_values.push(toml::Value::String(h.clone()));
    }
    let mut target_values: Vec<toml::Value> = Vec::new();
    for t in targets {
        target_values.push(toml::Value::String(t.clone()));
    }
    let mut doc = toml::Table::new();
    doc.insert(String::from("hosts"), toml::Value::Array(host_values));
    doc.insert(String::from("targets"), toml::Value::Array(target_values));
    toml::to_string_pretty(&doc).expect("string arrays always serialize")
}

} // verus!
