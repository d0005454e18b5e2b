use vstd::prelude::*;
use crate::calendar::{date2weekday, weekday_of};
use crate::value::{Date, TomlDatetime, Node, Offset, Time, TomlValue, array_model, table_model};
use crate::document::{TomlArray, TomlTable};
use crate::variant::{Dyn, Variant, dict_model, list_model};

verus! {

broadcast use vstd::string::group_string_axioms;

/// The entries that a date contributes to a datetime's dictionary.
pub open spec fn date_entries(d: Date) -> Seq<(Seq<char>, Dyn)> {
    seq![
        ("year"@, Dyn::Int(d.year as int)),
        ("month"@, Dyn::Int(d.month as int)),
        ("day"@, Dyn::Int(d.day as int)),
        ("weekday"@, Dyn::Int(weekday_of(d.year as int, d.month as int, d.day as int))),
    ]
}

/// The entries that a time of day contributes to a datetime's dictionary.
pub open spec fn time_entries(t: Time) -> Seq<(Seq<char>, Dyn)> {
    seq![
        ("hour"@, Dyn::Int(t.hour as int)),
        ("minute"@, Dyn::Int(t.minute as int)),
        ("second"@, Dyn::Int(t.second as int)),
        ("nanosecond"@, Dyn::Int(t.nanosecond as int)),
    ]
}

/// The offset in minutes that the key `bias` takes: that of a fixed
/// offset, and 0 for UTC.
pub open spec fn bias_of(o: Offset) -> int {
    match o {
        Offset::Custom { minutes } => minutes as int,
        Offset::Z => 0,
    }
}

/// The dictionary of a datetime: the date's keys, then the time's, then
/// `bias`, each group present only where the datetime has that part.
pub open spec fn datetime_entries(d: TomlDatetime) -> Seq<(Seq<char>, Dyn)> {
    let date = match d.date {
        Some(x) => date_entries(x),
        None => Seq::empty(),
    };
    let time = match d.time {
        Some(x) => time_entries(x),
        None => Seq::empty(),
    };
    let bias = match d.offset {
        Some(o) => seq![("bias"@, Dyn::Int(bias_of(o)))],
        None => Seq::empty(),
    };
    date + time + bias
}

/// The dynamic value of a TOML value with every array and table turned,
/// recursively, into a host array and dictionary.
pub open spec fn eager(n: Node) -> Dyn
    decreases n,
{
    match n {
        Node::Str(s) => Dyn::Str(s),
        Node::Int(i) => Dyn::Int(i as int),
        Node::Float(b) => Dyn::Float(b),
        Node::Bool(b) => Dyn::Bool(b),
        Node::Date(d) => Dyn::Dict(datetime_entries(d)),
        Node::Arr(s) => Dyn::Arr(
            Seq::new(
                s.len(),
                |i: int|
                    if 0 <= i < s.len() {
                        eager(s[i])
                    } else {
                        Dyn::Nil
                    },
            ),
        ),
        Node::Tab(t) => Dyn::Dict(
            Seq::new(
                t.len(),
                |i: int|
                    if 0 <= i < t.len() {
                        (t[i].0, eager(t[i].1))
                    } else {
                        (Seq::empty(), Dyn::Nil)
                    },
            ),
        ),
    }
}

/// The dynamic value of a TOML value where an array or a table becomes a
/// handle on a copy of it.
pub open spec fn lazy(n: Node) -> Dyn {
    match n {
        Node::Arr(s) => Dyn::ArrayRef(Some(s)),
        Node::Tab(t) => Dyn::TableRef(Some(t)),
        _ => eager(n),
    }
}

/// A string, an integer, a float or a boolean converts to the host value of
/// the same kind and content, on both the handle path and the materializing
/// path.
pub proof fn lemma_scalars_convert_to_themselves(n: Node)
    requires
        n is Str || n is Int || n is Float || n is Bool,
    ensures
        lazy(n) == eager(n),
        lazy(n) == match n {
            Node::Str(s) => Dyn::Str(s),
            Node::Int(i) => Dyn::Int(i as int),
            Node::Float(b) => Dyn::Float(b),
            Node::Bool(b) => Dyn::Bool(b),
            _ => Dyn::Nil,
        },
{
}

/// The dictionary of the entries of `t`, each value converted by [`eager`].
pub open spec fn eager_table(t: Seq<(Seq<char>, Node)>) -> Seq<(Seq<char>, Dyn)> {
    Seq::new(t.len(), |i: int| (t[i].0, eager(t[i].1)))
}

/// The array of the elements of `s`, each converted by [`eager`].
pub open spec fn eager_array(s: Seq<Node>) -> Seq<Dyn> {
    Seq::new(s.len(), |i: int| eager(s[i]))
}

fn int_entry(key: &str, value: i64) -> (r: (String, Variant))
    ensures
        r.0@ == key@,
        r.1.model() == Dyn::Int(value as int),
{
    (key.to_string(), Variant::Int(value))
}

/// The dictionary of a datetime: `year`, `month`, `day` and `weekday` where
/// it has a date, `hour`, `minute`, `second` and `nanosecond` where it has a
/// time, and `bias` where it has an offset.
pub fn datetime2dict(datetime: &TomlDatetime) -> (r: Vec<(String, Variant)>)
    ensures
        dict_model(r@) == datetime_entries(*datetime),
{
    let mut dict: Vec<(String, Variant)> = Vec::new();
    if let Some(date) = datetime.date {
        dict.push(int_entry("year", date.year as i64));
        dict.push(int_entry("month", date.month as i64));
        dict.push(int_entry("day", date.day as i64));
        let weekday = date2weekday(date.year as i32, date.month as i32, date.day as i32);
        dict.push(int_entry("weekday", weekday as i64));
    }
    if let Some(time) = datetime.time {
        dict.push(int_entry("hour", time.hour as i64));
        dict.push(int_entry("minute", time.minute as i64));
        dict.push(int_entry("second", time.second as i64));
        dict.push(int_entry("nanosecond", time.nanosecond as i64));
    }
    if let Some(offset) = datetime.offset {
        match offset {
            Offset::Custom { minutes } => dict.push(int_entry("bias", minutes as i64)),
            Offset::Z => dict.push(int_entry("bias", 0)),
        }
    }
    assert(dict_model(dict@) =~= datetime_entries(*datetime));
    dict
}

/// The host value of `value` with arrays and tables materialized.
fn materialize(value: &TomlValue) -> (r: Variant)
    ensures
        r.model() == eager(value.model()),
    decreases value, 1nat,
{
    match value {
        TomlValue::String(s) => Variant::String(s.clone()),
        TomlValue::Integer(i) => Variant::Int(*i),
        TomlValue::Float(b) => Variant::Float(*b),
        TomlValue::Boolean(b) => Variant::Bool(*b),
        TomlValue::Datetime(d) => {
            let dict = datetime2dict(d);
            let r = Variant::Dictionary(dict);
            assert(r.model()->Dict_0 =~= datetime_entries(*d));
            r
        },
        TomlValue::Array(a) => {
            let arr = array2varray(a);
            let r = Variant::Array(arr);
            assert forall|j: int| 0 <= j < a@.len() implies r.model()->Arr_0[j] == eager(
                value.model(),
            )->Arr_0[j] by {
                assert(arr@[j].model() == eager(a@[j].model()));
            }
            assert(r.model()->Arr_0 =~= eager(value.model())->Arr_0);
            r
        },
        TomlValue::Table(t) => {
            let dict = table2dict(t);
            let r = Variant::Dictionary(dict);
            assert forall|j: int| 0 <= j < t@.len() implies r.model()->Dict_0[j] == eager(
                value.model(),
            )->Dict_0[j] by {
                assert(dict@[j].0@ == t@[j].0@ && dict@[j].1.model() == eager(t@[j].1.model()));
            }
            assert(r.model()->Dict_0 =~= eager(value.model())->Dict_0);
            r
        },
    }
}

/// The dictionary of a table's entries, in order, each value converted with
/// its arrays and tables materialized.
pub fn table2dict(table: &Vec<(String, TomlValue)>) -> (r: Vec<(String, Variant)>)
    ensures
        r@.len() == table@.len(),
        forall|j: int|
            #![trigger r@[j]]
            0 <= j < table@.len() ==> r@[j].0@ == table@[j].0@ && r@[j].1.model() == eager(
                table@[j].1.model(),
            ),
        dict_model(r@) == eager_table(table_model(table@)),
    decreases table, 0nat,
{
    let mut dict: Vec<(String, Variant)> = Vec::new();
    let mut i: usize = 0;
    while i < table.len()
        invariant
            i <= table@.len(),
            dict@.len() == i,
            forall|j: int|
                0 <= j < i ==> #[trigger] dict@[j].0@ == table@[j].0@ && dict@[j].1.model()
                    == eager(table@[j].1.model()),
        decreases table@.len() - i,
    {
        proof {
            assert(decreases_to!(table => table@[i as int].1));
        }
        let entry = &table[i];
        dict.push((entry.0.clone(), materialize(&entry.1)));
        i = i + 1;
    }
    assert(dict_model(dict@) =~= eager_table(table_model(table@)));
    dict
}

/// The array of an array's elements, in order, each converted with its
/// arrays and tables materialized.
pub fn array2varray(array: &Vec<TomlValue>) -> (r: Vec<Variant>)
    ensures
        r@.len() == array@.len(),
        forall|j: int| 0 <= j < array@.len() ==> #[trigger] r@[j].model() == eager(array@[j].model()),
        list_model(r@) == eager_array(array_model(array@)),
    decreases array, 0nat,
{
    let mut arr: Vec<Variant> = Vec::new();
    let mut i: usize = 0;
    while i < array.len()
        invariant
            i <= array@.len(),
            arr@.len() == i,
            forall|j: int| 0 <= j < i ==> #[trigger] arr@[j].model() == eager(array@[j].model()),
        decreases array@.len() - i,
    {
        proof {
            assert(decreases_to!(array => array@[i as int]));
        }
        arr.push(materialize(&array[i]));
        i = i + 1;
    }
    assert(list_model(arr@) =~= eager_array(array_model(array@)));
    arr
}

/// The host value of `value`, where an array or a table becomes a handle
/// on a copy of it.
pub fn value2variant(value: &TomlValue) -> (r: Variant)
    ensures
        r.model() == lazy(value.model()),
{
    match value {
        TomlValue::Array(a) => {
            let r = Variant::TomlArray(TomlArray::from_array(a));
            assert(r.model()->ArrayRef_0->Some_0 =~= lazy(value.model())->ArrayRef_0->Some_0);
            r
        },
        TomlValue::Table(t) => {
            let r = Variant::Table(TomlTable::from_table(t));
            assert(r.model()->TableRef_0->Some_0 =~= lazy(value.model())->TableRef_0->Some_0);
            r
        },
        _ => materialize(value),
    }
}

} // verus!
