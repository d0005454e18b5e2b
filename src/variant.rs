use vstd::prelude::*;
use crate::document::{TomlArray, TomlTable};
use crate::value::Node;

verus! {

/// A dynamic host value: nil, a scalar, a dictionary with string keys in
/// insertion order, an array, or a handle on a table or an array.
#[derive(Debug)]
pub enum Variant {
    Nil,
    String(String),
    Int(i64),
    /// A float by its IEEE 754 bit pattern.
    Float(u64),
    Bool(bool),
    Dictionary(Vec<(String, Variant)>),
    Array(Vec<Variant>),
    Table(TomlTable),
    TomlArray(TomlArray),
}

/// The mathematical model of a [`Variant`].
pub enum Dyn {
    Nil,
    Str(Seq<char>),
    Int(int),
    Float(u64),
    Bool(bool),
    Dict(Seq<(Seq<char>, Dyn)>),
    Arr(Seq<Dyn>),
    TableRef(Option<Seq<(Seq<char>, Node)>>),
    ArrayRef(Option<Seq<Node>>),
}

impl Variant {
    pub open spec fn model(self) -> Dyn
        decreases self,
    {
        match self {
            Variant::Nil => Dyn::Nil,
            Variant::String(s) => Dyn::Str(s@),
            Variant::Int(i) => Dyn::Int(i as int),
            Variant::Float(b) => Dyn::Float(b),
            Variant::Bool(b) => Dyn::Bool(b),
            Variant::Dictionary(d) => Dyn::Dict(
                Seq::new(
                    d@.len(),
                    |i: int|
                        if 0 <= i < d@.len() {
                            (d@[i].0@, d@[i].1.model())
                        } else {
                            (Seq::empty(), Dyn::Nil)
                        },
                ),
            ),
            Variant::Array(a) => Dyn::Arr(
                Seq::new(
                    a@.len(),
                    |i: int|
                        if 0 <= i < a@.len() {
                            a@[i].model()
                        } else {
                            Dyn::Nil
                        },
                ),
            ),
            Variant::Table(t) => Dyn::TableRef(t@),
            Variant::TomlArray(a) => Dyn::ArrayRef(a@),
        }
    }
}

/// The models of the entries of a dictionary.
pub open spec fn dict_model(d: Seq<(String, Variant)>) -> Seq<(Seq<char>, Dyn)> {
    Seq::new(d.len(), |i: int| (d[i].0@, d[i].1.model()))
}

/// The models of the elements of an array.
pub open spec fn list_model(a: Seq<Variant>) -> Seq<Dyn> {
    Seq::new(a.len(), |i: int| a[i].model())
}

} // verus!
