use vstd::prelude::*;
use crate::value::{Date, Node, Offset, Time, TomlValue, table_model};

verus! {

/// toml's value tree, carried opaque until it is moved into [`TomlValue`].
#[verifier::external_type_specification]
#[verifier::external_body]
pub struct ExTomlValue(toml::Value);

/// toml's datetime, read field by field into [`crate::value::TomlDatetime`].
#[verifier::external_type_specification]
#[verifier::external_body]
pub struct ExTomlDatetime(toml::value::Datetime);

/// The root table that toml reads from `text`, in the library's terms, or
/// none where `text` is not valid TOML.
pub uninterp spec fn toml_document_of(text: Seq<char>) -> Option<Seq<(Seq<char>, Node)>>;

/// Relies on `toml::from_str`, through `FromStr` for `toml::Table`: a text
/// gives either the same root table every time or an error, whose `Display`
/// text is the diagnostic handed back. The table's entries come in the order
/// of toml's map (a `BTreeMap`, so by key) and are moved into the library's
/// types by [`value_from_toml`].
#[verifier::external_body]
pub(crate) fn parse_table(text: &str) -> (r: Result<Vec<(String, TomlValue)>, String>)
    ensures
        match r {
            Ok(t) => toml_document_of(text@) == Some(table_model(t@)),
            Err(_) => toml_document_of(text@) is None,
        },
{
    match text.parse::<toml::Table>() {
        Ok(t) => Ok(t.into_iter().map(|(k, v)| (k, value_from_toml(v))).collect()),
        Err(e) => Err(e.to_string()),
    }
}

/// Moves a `toml::Value` into the library's value type, variant for variant
/// and element for element; a float keeps its bit pattern (`f64::to_bits`).
/// Its result is what [`parse_table`]'s contract names.
#[verifier::external_body]
fn value_from_toml(v: toml::Value) -> TomlValue {
    match v {
        toml::Value::String(s) => TomlValue::String(s),
        toml::Value::Integer(i) => TomlValue::Integer(i),
        toml::Value::Float(f) => TomlValue::Float(f.to_bits()),
        toml::Value::Boolean(b) => TomlValue::Boolean(b),
        toml::Value::Datetime(d) => TomlValue::Datetime(datetime_from_toml(&d)),
        toml::Value::Array(a) => TomlValue::Array(a.into_iter().map(value_from_toml).collect()),
        toml::Value::Table(t) => TomlValue::Table(
            t.into_iter().map(|(k, v)| (k, value_from_toml(v))).collect(),
        ),
    }
}

/// Copies the public fields of `toml::value::Datetime` (and of its `Date`,
/// `Time` and `Offset`) into the library's datetime.
#[verifier::external_body]
fn datetime_from_toml(d: &toml::value::Datetime) -> crate::value::TomlDatetime {
    crate::value::TomlDatetime {
        date: d.date.map(|x| Date { year: x.year, month: x.month, day: x.day }),
        time: d.time.map(
            |x| Time { hour: x.hour, minute: x.minute, second: x.second, nanosecond: x.nanosecond },
        ),
        offset: d.offset.map(
            |o| match o {
                toml::value::Offset::Z => Offset::Z,
                toml::value::Offset::Custom { minutes } => Offset::Custom { minutes },
            },
        ),
    }
}

} // verus!
