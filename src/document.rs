use vstd::prelude::*;
use crate::convert::{array2varray, eager_array, eager_table, lazy, table2dict, value2variant};
use crate::value::{Node, TomlValue, array_model, copy_array, copy_table, table_model};
use crate::toml_bridge::{parse_table, toml_document_of};
use crate::variant::{Dyn, Variant, dict_model, list_model};

verus! {

/// A handle on a table of a parsed document. It owns its own copy of the
/// entries; a handle made by `Default` holds none.
#[derive(Debug)]
pub struct TomlTable {
    pub(crate) table: Option<Vec<(String, TomlValue)>>,
}

/// A handle on an array of a parsed document. It owns its own copy of the
/// elements; a handle made by `Default` holds none.
#[derive(Debug)]
pub struct TomlArray {
    pub(crate) array: Option<Vec<TomlValue>>,
}

impl View for TomlTable {
    type V = Option<Seq<(Seq<char>, Node)>>;

    closed spec fn view(&self) -> Self::V {
        match self.table {
            Some(t) => Some(table_model(t@)),
            None => None,
        }
    }
}

impl View for TomlArray {
    type V = Option<Seq<Node>>;

    closed spec fn view(&self) -> Self::V {
        match self.array {
            Some(a) => Some(array_model(a@)),
            None => None,
        }
    }
}

impl Default for TomlTable {
    fn default() -> (r: TomlTable)
        ensures
            r@ is None,
    {
        TomlTable { table: None }
    }
}

impl Default for TomlArray {
    fn default() -> (r: TomlArray)
        ensures
            r@ is None,
    {
        TomlArray { array: None }
    }
}

impl TomlTable {
    /// A handle that owns a copy of `table`.
    pub fn from_table(table: &Vec<(String, TomlValue)>) -> (r: TomlTable)
        ensures
            r@ == Some(table_model(table@)),
    {
        TomlTable { table: Some(copy_table(table)) }
    }
}

impl TomlArray {
    /// A handle that owns a copy of `array`.
    pub fn from_array(array: &Vec<TomlValue>) -> (r: TomlArray)
        ensures
            r@ == Some(array_model(array@)),
    {
        TomlArray { array: Some(copy_array(array)) }
    }
}

/// A parsed document: the handle on its root table, or none where nothing
/// was parsed into it.
#[derive(Debug)]
pub struct TomlDocument {
    pub(crate) root: Option<TomlTable>,
}

impl View for TomlDocument {
    type V = Option<Option<Seq<(Seq<char>, Node)>>>;

    closed spec fn view(&self) -> Self::V {
        match self.root {
            Some(t) => Some(t@),
            None => None,
        }
    }
}

impl Default for TomlDocument {
    fn default() -> (r: TomlDocument)
        ensures
            r@ is None,
    {
        TomlDocument { root: None }
    }
}

impl TomlDocument {
    /// The document of a parse outcome: the root table of a success, or the
    /// diagnostic of a failure, unchanged.
    pub fn from_parsed(parsed: Result<Vec<(String, TomlValue)>, String>) -> (r: Result<
        TomlDocument,
        String,
    >)
        ensures
            match parsed {
                Ok(t) => r is Ok && r->Ok_0@ == Some(Some(table_model(t@))),
                Err(e) => r == Err::<TomlDocument, String>(e),
            },
    {
        match parsed {
            Ok(table) => Ok(TomlDocument { root: Some(TomlTable::from_table(&table)) }),
            Err(e) => Err(e),
        }
    }

    /// Parses `text` as TOML. On success the document holds a handle on the
    /// root table; on failure the error is toml's diagnostic.
    pub fn parse(text: &str) -> (r: Result<TomlDocument, String>)
        ensures
            match toml_document_of(text@) {
                Some(t) => r is Ok && r->Ok_0@ == Some(Some(t)),
                None => r is Err,
            },
    {
        TomlDocument::from_parsed(parse_table(text))
    }

    /// A handle on the root table, or none where the document is unset.
    pub fn get_root(&self) -> (r: Option<TomlTable>)
        ensures
            match self@ {
                Some(t) => r is Some && r->Some_0@ == t,
                None => r is None,
            },
    {
        match &self.root {
            Some(t) => Some(t.duplicate()),
            None => None,
        }
    }
}

/// The index of the first entry of `t` whose key is `key`, or -1 where
/// there is none.
pub open spec fn key_index(t: Seq<(Seq<char>, Node)>, key: Seq<char>) -> int
    decreases t.len(),
{
    if t.len() == 0 {
        -1
    } else if t[0].0 == key {
        0
    } else {
        let p = key_index(t.subrange(1, t.len() as int), key);
        if p < 0 {
            -1
        } else {
            p + 1
        }
    }
}

/// What looking up `key` in a table handle gives: the value of its entry,
/// converted by [`lazy`], or nil where the key is absent or the handle is
/// unset.
pub open spec fn table_lookup(t: Option<Seq<(Seq<char>, Node)>>, key: Seq<char>) -> Dyn {
    match t {
        Some(s) => if key_index(s, key) >= 0 {
            lazy(s[key_index(s, key)].1)
        } else {
            Dyn::Nil
        },
        None => Dyn::Nil,
    }
}

/// What reading position `index` of an array handle gives: the element,
/// converted by [`lazy`], or nil where the index is out of bounds or the
/// handle is unset.
pub open spec fn array_lookup(a: Option<Seq<Node>>, index: int) -> Dyn {
    match a {
        Some(s) => if 0 <= index < s.len() {
            lazy(s[index])
        } else {
            Dyn::Nil
        },
        None => Dyn::Nil,
    }
}

/// The dictionary of a table handle: its entries materialized, or empty
/// where the handle is unset.
pub open spec fn table_dict(t: Option<Seq<(Seq<char>, Node)>>) -> Seq<(Seq<char>, Dyn)> {
    match t {
        Some(s) => eager_table(s),
        None => Seq::empty(),
    }
}

/// The array of an array handle: its elements materialized, or empty where
/// the handle is unset.
pub open spec fn array_list(a: Option<Seq<Node>>) -> Seq<Dyn> {
    match a {
        Some(s) => eager_array(s),
        None => Seq::empty(),
    }
}

/// A key that no entry of a table has looks up to nil.
pub proof fn lemma_missing_key_is_nil(t: Seq<(Seq<char>, Node)>, key: Seq<char>)
    requires
        forall|i: int| 0 <= i < t.len() ==> #[trigger] t[i].0 != key,
    ensures
        table_lookup(Some(t), key) == Dyn::Nil,
    decreases t.len(),
{
    if t.len() > 0 {
        let rest = t.subrange(1, t.len() as int);
        assert forall|i: int| 0 <= i < rest.len() implies #[trigger] rest[i].0 != key by {
            assert(rest[i] == t[i + 1]);
        }
        lemma_missing_key_is_nil(rest, key);
        assert(t[0].0 != key);
    }
}

/// An index below zero or at or past the length of an array reads as nil.
pub proof fn lemma_out_of_bounds_is_nil(a: Seq<Node>, index: int)
    requires
        index < 0 || index >= a.len(),
    ensures
        array_lookup(Some(a), index) == Dyn::Nil,
{
}

/// Two dictionaries built from the same table handle are equal: building
/// one leaves the handle as it was, and each is a value of its own.
pub proof fn lemma_to_dict_repeatable(
    t: Option<Seq<(Seq<char>, Node)>>,
    first: Seq<(String, Variant)>,
    second: Seq<(String, Variant)>,
)
    requires
        dict_model(first) == table_dict(t),
        dict_model(second) == table_dict(t),
    ensures
        dict_model(first) == dict_model(second),
        first.len() == second.len(),
{
    assert(first.len() == dict_model(first).len());
    assert(second.len() == dict_model(second).len());
}

proof fn lemma_key_index_step(t: Seq<(Seq<char>, Node)>, key: Seq<char>, i: int)
    requires
        0 <= i < t.len(),
        t[i].0 != key,
    ensures
        key_index(t.subrange(i, t.len() as int), key) == {
            let p = key_index(t.subrange(i + 1, t.len() as int), key);
            if p < 0 {
                -1
            } else {
                p + 1
            }
        },
{
    let s = t.subrange(i, t.len() as int);
    assert(s.subrange(1, s.len() as int) =~= t.subrange(i + 1, t.len() as int));
}

impl TomlTable {
    /// Another handle on a copy of the same entries.
    pub fn duplicate(&self) -> (r: TomlTable)
        ensures
            r@ == self@,
    {
        match &self.table {
            Some(t) => TomlTable::from_table(t),
            None => TomlTable { table: None },
        }
    }

    /// The value under `key`, with an array or a table as a new handle, or
    /// nil where there is no such key or the handle is unset.
    pub fn get(&self, key: &String) -> (r: Variant)
        ensures
            r.model() == table_lookup(self@, key@),
    {
        if let Some(table) = &self.table {
            let ghost t = table_model(table@);
            let mut i: usize = 0;
            assert(t.subrange(0, t.len() as int) =~= t);
            while i < table.len()
                invariant
                    i <= table@.len(),
                    t == table_model(table@),
                    self@ == Some(t),
                    key_index(t, key@) == {
                        let p = key_index(t.subrange(i as int, t.len() as int), key@);
                        if p < 0 {
                            -1
                        } else {
                            p + i
                        }
                    },
                decreases table@.len() - i,
            {
                assert(t[i as int] == (table@[i as int].0@, table@[i as int].1.model()));
                if table[i].0.eq(key) {
                    assert(t.subrange(i as int, t.len() as int)[0] == t[i as int]);
                    assert(key_index(t.subrange(i as int, t.len() as int), key@) == 0);
                    return value2variant(&table[i].1);
                }
                proof {
                    lemma_key_index_step(t, key@, i as int);
                }
                i = i + 1;
            }
        }
        Variant::Nil
    }

    /// Every entry, in order, with arrays and tables materialized; empty
    /// where the handle is unset. Each call builds a new dictionary.
    pub fn to_dict(&self) -> (r: Vec<(String, Variant)>)
        ensures
            dict_model(r@) == table_dict(self@),
    {
        if let Some(table) = &self.table {
            return table2dict(table);
        }
        let r: Vec<(String, Variant)> = Vec::new();
        assert(dict_model(r@) =~= table_dict(self@));
        r
    }
}

impl TomlArray {
    /// The element at `index`, with an array or a table as a new handle, or
    /// nil where `index` is negative or past the end or the handle is unset.
    pub fn get(&self, index: i64) -> (r: Variant)
        ensures
            r.model() == array_lookup(self@, index as int),
    {
        if let Some(array) = &self.array {
            if 0 <= index && (index as u64) < (array.len() as u64) {
                return value2variant(&array[index as usize]);
            }
        }
        Variant::Nil
    }

    /// Every element, in order, with arrays and tables materialized; empty
    /// where the handle is unset. Each call builds a new array.
    pub fn to_array(&self) -> (r: Vec<Variant>)
        ensures
            list_model(r@) == array_list(self@),
    {
        if let Some(array) = &self.array {
            return array2varray(array);
        }
        let r: Vec<Variant> = Vec::new();
        assert(list_model(r@) =~= array_list(self@));
        r
    }
}

} // verus!
