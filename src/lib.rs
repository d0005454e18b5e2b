//! Parsing TOML text into a document tree and converting that tree into
//! dynamic host values (dictionaries, arrays and scalars).

mod calendar;
mod convert;
mod document;
mod toml_bridge;
mod value;
mod variant;

pub use calendar::{date2weekday, trunc_div, trunc_rem, weekday_of};
pub use convert::{
    array2varray, bias_of, date_entries, datetime2dict, datetime_entries, eager, eager_array,
    eager_table, lazy, lemma_scalars_convert_to_themselves, table2dict, time_entries,
    value2variant,
};
pub use document::{
    array_list, array_lookup, key_index, lemma_missing_key_is_nil, lemma_out_of_bounds_is_nil,
    lemma_to_dict_repeatable, table_dict, table_lookup, TomlArray, TomlDocument, TomlTable,
};
pub use toml_bridge::toml_document_of;
pub use value::{
    array_model, copy_array, copy_table, table_model, Date, Node, Offset, Time, TomlDatetime,
    TomlValue,
};
pub use variant::{dict_model, list_model, Dyn, Variant};
