//! The trusted boundary around the `toml` crate: declarations of its types,
//! names for what its functions return, and thin wrappers for the few calls
//! the decoders make. Nothing else in the library touches the crate directly.
//!
//! The names are sound because every named call is a function of its
//! arguments alone: `toml::from_str` reads nothing but the text, and the
//! accessors of `toml::Value` and `toml::map::Map` read nothing but the
//! value. `value_view` stands for what a parsed value holds, `table_view`
//! for a table's entries in its iteration order (deterministic for the
//! crate's map), and `toml_table_of` for the outcome of parsing given text.

use vstd::prelude::*;
use std::io::Write;

verus! {

#[verifier::external_type_specification]
#[verifier::external_body]
#[verifier::reject_recursive_types(K)]
#[verifier::reject_recursive_types(V)]
pub struct ExTomlMap<K, V>(toml::map::Map<K, V>);

#[verifier::external_type_specification]
#[verifier::external_body]
pub struct ExTomlValue(toml::Value);

#[verifier::external_type_specification]
#[verifier::external_body]
pub struct ExTomlDeError(toml::de::Error);

/// What a parsed TOML value holds, as far as the decoders read it: a string,
/// a table of entries, an array, or any other kind (all rejected alike).
#[verifier::ext_equal]
pub enum ValView {
    Str(Seq<char>),
    Table(Seq<(Seq<char>, ValView)>),
    Array(Seq<ValView>),
    Other,
}

/// The value of the first entry with the given key, if any. The crate's
/// tables never hold a key twice, so "first" and "only" coincide.
pub open spec fn seq_lookup(t: Seq<(Seq<char>, ValView)>, key: Seq<char>) -> Option<ValView>
    decreases t.len(),
{
    if t.len() == 0 {
        None
    } else if t[0].0 == key {
        Some(t[0].1)
    } else {
        seq_lookup(t.skip(1), key)
    }
}

pub uninterp spec fn value_view(v: toml::Value) -> ValView;

pub uninterp spec fn table_view(t: toml::Table) -> Seq<(Seq<char>, ValView)>;

pub uninterp spec fn toml_table_of(s: Seq<char>) -> Option<Seq<(Seq<char>, ValView)>>;

/// Relies on toml::from_str: parses TOML text into its top-level table. The
/// result is a function of the text alone; `toml_table_of` names it.
#[verifier::external_body]
pub(crate) fn toml_parse_table(s: &str) -> (r: Result<toml::Table, toml::de::Error>)
    ensures
        r is Ok <==> toml_table_of(s@) is Some,
        r matches Ok(t) ==> Some(table_view(t)) == toml_table_of(s@),
{
    toml::from_str::<toml::Table>(s)
}

/// Relies on Display for toml::de::Error: the decode error as text.
#[verifier::external_body]
pub(crate) fn de_error_text(e: &toml::de::Error) -> String {
    e.to_string()
}

/// Relies on toml::map::Map::get: the value at a key, if the table has one.
/// A parsed table holds each key once, so the match is the first match.
#[verifier::external_body]
pub(crate) fn table_get<'a>(t: &'a toml::Table, key: &str) -> (r: Option<&'a toml::Value>)
    ensures
        r is Some <==> seq_lookup(table_view(*t), key@) is Some,
        r matches Some(v) ==> Some(value_view(*v)) == seq_lookup(table_view(*t), key@),
{
    t.get(key)
}

/// Relies on toml::map::Map::iter: the table's entries, in the table's own
/// deterministic iteration order, each key paired with a clone of its value.
#[verifier::external_body]
pub(crate) fn table_entries(t: &toml::Table) -> (r: Vec<(String, toml::Value)>)
    ensures
        r@.len() == table_view(*t).len(),
        forall|i: int|
            0 <= i < r@.len() ==> (#[trigger] r@[i]).0@ == table_view(*t)[i].0 && value_view(
                r@[i].1,
            ) == table_view(*t)[i].1,
{
    t.iter().map(|(k, v)| (k.clone(), v.clone())).collect()
}

/// Relies on toml::Value::as_str: the value's text, if it is a string.
#[verifier::external_body]
pub(crate) fn value_as_str(v: &toml::Value) -> (r: Option<String>)
    ensures
        r is Some <==> value_view(*v) is Str,
        r matches Some(s) ==> value_view(*v) == ValView::Str(s@),
{
    v.as_str().map(|s| s.to_owned())
}

/// Relies on toml::Value::as_table: the value as a table, if it is one.
#[verifier::external_body]
pub(crate) fn value_as_table<'a>(v: &'a toml::Value) -> (r: Option<&'a toml::Table>)
    ensures
        r is Some <==> value_view(*v) is Table,
        r matches Some(t) ==> value_view(*v) == ValView::Table(table_view(*t)),
{
    v.as_table()
}

/// Relies on toml::Value::as_array: the value as an array, if it is one.
#[verifier::external_body]
pub(crate) fn value_as_array<'a>(v: &'a toml::Value) -> (r: Option<&'a Vec<toml::Value>>)
    ensures
        r is Some <==> value_view(*v) is Array,
        r matches Some(a) ==> value_view(*v) == ValView::Array(
            Seq::new(a@.len(), |i: int| value_view(a@[i])),
        ),
{
    v.as_array()
}

/// Relies on std::io::stderr: writes the one diagnostic line for a manifest
/// that could not be decoded.
#[verifier::external_body]
pub(crate) fn log_unparsable(path: &str, err: &str) {
    let _ = writeln!(std::io::stderr(), "Unparseable file: {:?} {}", path, err);
}

} // verus!
