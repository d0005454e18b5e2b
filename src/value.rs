use vstd::prelude::*;

verus! {

/// A calendar date as TOML writes it.
#[derive(Clone, Copy, Debug, PartialEq, Eq, Structural)]
pub struct Date {
    pub year: u16,
    pub month: u8,
    pub day: u8,
}

/// A time of day as TOML writes it.
#[derive(Clone, Copy, Debug, PartialEq, Eq, Structural)]
pub struct Time {
    pub hour: u8,
    pub minute: u8,
    pub second: u8,
    pub nanosecond: u32,
}

/// The offset of a datetime from UTC.
#[derive(Clone, Copy, Debug, PartialEq, Eq, Structural)]
pub enum Offset {
    /// Written `Z`: UTC itself.
    Z,
    /// A fixed offset in minutes.
    Custom { minutes: i16 },
}

/// A TOML datetime: any of a date, a time and an offset.
#[derive(Clone, Copy, Debug, PartialEq, Eq, Structural)]
pub struct TomlDatetime {
    pub date: Option<Date>,
    pub time: Option<Time>,
    pub offset: Option<Offset>,
}

/// A parsed TOML value. A float is held by its IEEE 754 bit pattern, which
/// is carried through unchanged.
#[derive(Debug)]
pub enum TomlValue {
    String(String),
    Integer(i64),
    Float(u64),
    Boolean(bool),
    Datetime(TomlDatetime),
    Array(Vec<TomlValue>),
    Table(Vec<(String, TomlValue)>),
}

/// The mathematical model of a [`TomlValue`].
pub enum Node {
    Str(Seq<char>),
    Int(i64),
    Float(u64),
    Bool(bool),
    Date(TomlDatetime),
    Arr(Seq<Node>),
    Tab(Seq<(Seq<char>, Node)>),
}

impl TomlValue {
    pub open spec fn model(self) -> Node
        decreases self,
    {
        match self {
            TomlValue::String(s) => Node::Str(s@),
            TomlValue::Integer(i) => Node::Int(i),
            TomlValue::Float(b) => Node::Float(b),
            TomlValue::Boolean(b) => Node::Bool(b),
            TomlValue::Datetime(d) => Node::Date(d),
            TomlValue::Array(a) => Node::Arr(
                Seq::new(
                    a@.len(),
                    |i: int|
                        if 0 <= i < a@.len() {
                            a@[i].model()
                        } else {
                            Node::Bool(false)
                        },
                ),
            ),
            TomlValue::Table(t) => Node::Tab(
                Seq::new(
                    t@.len(),
                    |i: int|
                        if 0 <= i < t@.len() {
                            (t@[i].0@, t@[i].1.model())
                        } else {
                            (Seq::empty(), Node::Bool(false))
                        },
                ),
            ),
        }
    }

    /// A copy of the value that shares nothing with it.
    pub fn deep_copy(&self) -> (r: TomlValue)
        ensures
            r.model() == self.model(),
        decreases self,
    {
        match self {
            TomlValue::String(s) => {
                let c = s.clone();
                assert(c@ == s@);
                TomlValue::String(c)
            },
            TomlValue::Integer(i) => TomlValue::Integer(*i),
            TomlValue::Float(b) => TomlValue::Float(*b),
            TomlValue::Boolean(b) => TomlValue::Boolean(*b),
            TomlValue::Datetime(d) => TomlValue::Datetime(*d),
            TomlValue::Array(a) => {
                let c = copy_array(a);
                let r = TomlValue::Array(c);
                assert forall|j: int| 0 <= j < a@.len() implies r.model()->Arr_0[j]
                    == self.model()->Arr_0[j] by {
                    assert(c@[j].model() == a@[j].model());
                }
                assert(r.model()->Arr_0 =~= self.model()->Arr_0);
                r
            },
            TomlValue::Table(t) => {
                let r = TomlValue::Table(copy_table(t));
                assert(r.model()->Tab_0 =~= self.model()->Tab_0);
                r
            },
        }
    }
}

/// The models of a sequence of values.
pub open spec fn array_model(a: Seq<TomlValue>) -> Seq<Node> {
    Seq::new(a.len(), |i: int| a[i].model())
}

/// The models of a sequence of entries.
pub open spec fn table_model(t: Seq<(String, TomlValue)>) -> Seq<(Seq<char>, Node)> {
    Seq::new(t.len(), |i: int| (t[i].0@, t[i].1.model()))
}

/// A copy of each value of `a`, in order.
pub fn copy_array(a: &Vec<TomlValue>) -> (r: Vec<TomlValue>)
    ensures
        r@.len() == a@.len(),
        forall|j: int| 0 <= j < a@.len() ==> #[trigger] r@[j].model() == a@[j].model(),
        array_model(r@) == array_model(a@),
    decreases a,
{
    let mut r: Vec<TomlValue> = Vec::new();
    let mut i: usize = 0;
    while i < a.len()
        invariant
            i <= a@.len(),
            r@.len() == i,
            forall|j: int| 0 <= j < i ==> #[trigger] r@[j].model() == a@[j].model(),
        decreases a@.len() - i,
    {
        proof {
            assert(decreases_to!(a => a@[i as int]));
        }
        r.push(a[i].deep_copy());
        i = i + 1;
    }
    assert(array_model(r@) =~= array_model(a@));
    r
}

/// A copy of each entry of `t`, in order.
pub fn copy_table(t: &Vec<(String, TomlValue)>) -> (r: Vec<(String, TomlValue)>)
    ensures
        r@.len() == t@.len(),
        forall|j: int|
            0 <= j < t@.len() ==> #[trigger] r@[j].0@ == t@[j].0@ && r@[j].1.model()
                == t@[j].1.model(),
        table_model(r@) == table_model(t@),
    decreases t,
{
    let mut r: Vec<(String, TomlValue)> = Vec::new();
    let mut i: usize = 0;
    while i < t.len()
        invariant
            i <= t@.len(),
            r@.len() == i,
            forall|j: int|
                0 <= j < i ==> #[trigger] r@[j].0@ == t@[j].0@ && r@[j].1.model()
                    == t@[j].1.model(),
        decreases t@.len() - i,
    {
        proof {
            assert(decreases_to!(t => t@[i as int].1));
        }
        let entry = &t[i];
        r.push((entry.0.clone(), entry.1.deep_copy()));
        i = i + 1;
    }
    assert(table_model(r@) =~= table_model(t@));
    r
}

} // verus!
