use vstd::prelude::*;

use crate::json::{JsonValue, JsonView};
use crate::sorted_map::{lemma_pairs_map_pointwise, SortedMap};

verus! {

/// The column under which an NDC function returns its result.
pub const FUNCTION_IR_VALUE_COLUMN_NAME: &'static str = "__value";

/// An argument passed to a field or a collection.
#[derive(Debug)]
pub enum Argument {
    Literal { value: JsonValue },
}

pub enum ArgumentView {
    Literal { value: JsonView },
}

/// A field to fetch from a data connector, resolved against the metadata.
#[derive(Debug)]
pub enum Field {
    Column { column: String, fields: Option<NestedField>, arguments: SortedMap<Argument> },
}

/// The selection made inside a field of an object or array type.
#[derive(Debug)]
pub enum NestedField {
    Object(NestedObject),
    Array(NestedArray),
}

#[derive(Debug)]
/// The fields of an object, in order, under distinct aliases. They are a
/// list of entries rather than an `indexmap::IndexMap`: a declared `IndexMap`
/// cannot hold the field type that contains it.
pub struct NestedObject {
    pub fields: Vec<(String, Field)>,
}

#[derive(Debug)]
pub struct NestedArray {
    pub fields: Box<NestedField>,
}

pub enum FieldView {
    Column { column: Seq<char>, fields: Option<NestedFieldView>, arguments: Map<Seq<char>, ArgumentView> },
}

pub enum NestedFieldView {
    Object(Seq<(Seq<char>, FieldView)>),
    Array(Box<NestedFieldView>),
}

impl View for Argument {
    type V = ArgumentView;

    open spec fn view(&self) -> ArgumentView {
        match self {
            Argument::Literal { value } => ArgumentView::Literal { value: value@ },
        }
    }
}

/// The view of a map of arguments.
pub open spec fn arguments_view(m: Map<Seq<char>, Argument>) -> Map<Seq<char>, ArgumentView> {
    m.map_values(|a: Argument| a@)
}

impl Field {
    pub open spec fn view_of(self) -> FieldView
        decreases self,
    {
        match self {
            Field::Column { column, fields, arguments } => FieldView::Column {
                column: column@,
                fields: match fields {
                    Some(n) => Some(n.view_of()),
                    None => None,
                },
                arguments: arguments_view(arguments.map()),
            },
        }
    }
}

impl NestedField {
    pub open spec fn view_of(self) -> NestedFieldView
        decreases self,
    {
        match self {
            NestedField::Object(o) => NestedFieldView::Object(
                Seq::new(
                    o.fields@.len(),
                    |i: int|
                        if 0 <= i < o.fields@.len() {
                            (o.fields@[i].0@, o.fields@[i].1.view_of())
                        } else {
                            (Seq::empty(), FieldView::Column {
                                column: Seq::empty(),
                                fields: None,
                                arguments: Map::empty(),
                            })
                        },
                ),
            ),
            NestedField::Array(a) => NestedFieldView::Array(Box::new((*a.fields).view_of())),
        }
    }
}

impl View for Field {
    type V = FieldView;

    open spec fn view(&self) -> FieldView {
        self.view_of()
    }
}

impl View for NestedField {
    type V = NestedFieldView;

    open spec fn view(&self) -> NestedFieldView {
        self.view_of()
    }
}

/// The view of an ordered map of fields, keyed by alias.
pub open spec fn fields_view(fields: Seq<(String, Field)>) -> Seq<(Seq<char>, FieldView)> {
    fields.map_values(|e: (String, Field)| (e.0@, e.1@))
}

impl Clone for Argument {
    fn clone(&self) -> (r: Self)
        ensures
            r@ == self@,
    {
        match self {
            Argument::Literal { value } => Argument::Literal { value: value.clone() },
        }
    }
}

/// A copy of a map of arguments.
pub fn clone_arguments(m: &SortedMap<Argument>) -> (r: SortedMap<Argument>)
    ensures
        arguments_view(r.map()) == arguments_view(m.map()),
{
    let r = m.map_values(|a: &Argument| -> (c: Argument)
        ensures
            c@ == a@,
        { a.clone() });
    proof {
        lemma_pairs_map_pointwise(m.pairs(), r.pairs());
        assert(arguments_view(r.map()) =~= arguments_view(m.map()));
    }
    r
}

impl Clone for Field {
    fn clone(&self) -> (r: Self)
        ensures
            r@ == self@,
        decreases self,
    {
        match self {
            Field::Column { column, fields, arguments } => {
                let nested = match fields {
                    Some(n) => {
                        proof {
                            assert(decreases_to!(*self => (*self)->Column_fields));
                        }
                        Some(n.clone())
                    },
                    None => None,
                };
                Field::Column {
                    column: column.clone(),
                    fields: nested,
                    arguments: clone_arguments(arguments),
                }
            },
        }
    }
}

impl Clone for NestedField {
    fn clone(&self) -> (r: Self)
        ensures
            r@ == self@,
        decreases self,
    {
        match self {
            NestedField::Object(o) => {
                let mut out: Vec<(String, Field)> = Vec::new();
                let n = o.fields.len();
                for i in 0..n
                    invariant
                        n == o.fields@.len(),
                        *self == NestedField::Object(*o),
                        out@.len() == i,
                        forall|j: int|
                            0 <= j < i ==> (#[trigger] out@[j]).0@ == o.fields@[j].0@ && out@[j].1@
                                == o.fields@[j].1@,
                {
                    proof {
                        assert(decreases_to!(*self => (*self)->Object_0));
                        assert(decreases_to!((*self)->Object_0 => o.fields));
                        assert(decreases_to!(o.fields => o.fields@));
                        assert(decreases_to!(o.fields@ => o.fields@[i as int]));
                        assert(decreases_to!(o.fields@[i as int] => o.fields@[i as int].1));
                    }
                    out.push((o.fields[i].0.clone(), o.fields[i].1.clone()));
                }
                let r = NestedField::Object(NestedObject { fields: out });
                assert(r@ == self@) by {
                    if let NestedFieldView::Object(a) = r@ {
                        if let NestedFieldView::Object(b) = self@ {
                            assert(a =~= b);
                        }
                    }
                }
                r
            },
            NestedField::Array(a) => {
                proof {
                    assert(decreases_to!(*self => (*self)->Array_0));
                    assert(decreases_to!((*self)->Array_0 => a.fields));
                }
                let inner: NestedField = (*a.fields).clone();
                NestedField::Array(NestedArray { fields: Box::new(inner) })
            },
        }
    }
}

} // verus!
