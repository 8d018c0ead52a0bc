//! The scalar types that the custom test connector declares in its schema.

use vstd::prelude::*;

use crate::sorted_map::SortedMap;

verus! {

broadcast use vstd::string::to_string_from_display_ensures_for_str;

/// How a scalar type is represented on the wire.
#[derive(Debug)]
pub enum TypeRepresentation {
    Boolean,
    String,
    Int32,
    JSON,
}

/// A type in a data connector's schema.
#[derive(Debug)]
pub enum Type {
    Named { name: String },
}

pub enum TypeView {
    Named { name: Seq<char> },
}

/// An aggregate function of a scalar type.
#[derive(Debug)]
pub enum AggregateFunctionDefinition {
    Max,
    Min,
}

/// A comparison operator of a scalar type.
#[derive(Debug)]
pub enum ComparisonOperatorDefinition {
    Equal,
    Custom { argument_type: Type },
}

pub enum ComparisonOperatorDefinitionView {
    Equal,
    Custom { argument_type: TypeView },
}

/// A scalar type of a data connector's schema.
#[derive(Debug)]
pub struct ScalarType {
    pub representation: TypeRepresentation,
    pub aggregate_functions: SortedMap<AggregateFunctionDefinition>,
    pub comparison_operators: SortedMap<ComparisonOperatorDefinition>,
}

pub struct ScalarTypeView {
    pub representation: TypeRepresentation,
    pub aggregate_functions: Map<Seq<char>, AggregateFunctionDefinition>,
    pub comparison_operators: Map<Seq<char>, ComparisonOperatorDefinitionView>,
}

impl View for Type {
    type V = TypeView;

    open spec fn view(&self) -> TypeView {
        match self {
            Type::Named { name } => TypeView::Named { name: name@ },
        }
    }
}

impl View for ComparisonOperatorDefinition {
    type V = ComparisonOperatorDefinitionView;

    open spec fn view(&self) -> ComparisonOperatorDefinitionView {
        match self {
            ComparisonOperatorDefinition::Equal => ComparisonOperatorDefinitionView::Equal,
            ComparisonOperatorDefinition::Custom { argument_type } => ComparisonOperatorDefinitionView::Custom {
                argument_type: argument_type@,
            },
        }
    }
}

impl View for ScalarType {
    type V = ScalarTypeView;

    open spec fn view(&self) -> ScalarTypeView {
        ScalarTypeView {
            representation: self.representation,
            aggregate_functions: self.aggregate_functions.map(),
            comparison_operators: self.comparison_operators.map().map_values(
                |c: ComparisonOperatorDefinition| c@,
            ),
        }
    }
}

/// The view of a map of scalar types.
pub open spec fn scalar_types_view(m: Map<Seq<char>, ScalarType>) -> Map<Seq<char>, ScalarTypeView> {
    m.map_values(|s: ScalarType| s@)
}

/// A custom comparison operator whose argument has the named type.
pub open spec fn custom_operator(named_type: Seq<char>) -> ComparisonOperatorDefinitionView {
    ComparisonOperatorDefinitionView::Custom { argument_type: TypeView::Named { name: named_type } }
}

/// The aggregate functions `max` and `min`.
pub open spec fn max_min() -> Map<Seq<char>, AggregateFunctionDefinition> {
    map!["max"@ => AggregateFunctionDefinition::Max, "min"@ => AggregateFunctionDefinition::Min]
}

/// The scalar type `String`: strings with `max`, `min` and string comparisons.
pub open spec fn string_type_view() -> ScalarTypeView {
    ScalarTypeView {
        representation: TypeRepresentation::String,
        aggregate_functions: max_min(),
        comparison_operators: map![
            "like"@ => custom_operator("String"@),
            "_eq"@ => ComparisonOperatorDefinitionView::Equal,
            "starts_with"@ => custom_operator("String"@),
            "ends_with"@ => custom_operator("String"@),
            "_contains"@ => custom_operator("String"@),
            "istarts_with"@ => custom_operator("String"@),
            "iends_with"@ => custom_operator("String"@),
            "_icontains"@ => custom_operator("String"@)
        ],
    }
}

/// The scalar type `Int`: 32-bit integers with `max`, `min` and equality.
pub open spec fn int_type_view() -> ScalarTypeView {
    ScalarTypeView {
        representation: TypeRepresentation::Int32,
        aggregate_functions: max_min(),
        comparison_operators: map!["_eq"@ => ComparisonOperatorDefinitionView::Equal],
    }
}

/// The scalar type `Bool`: booleans with a custom `eq`.
pub open spec fn bool_type_view() -> ScalarTypeView {
    ScalarTypeView {
        representation: TypeRepresentation::Boolean,
        aggregate_functions: Map::empty(),
        comparison_operators: map!["eq"@ => custom_operator("Bool"@)],
    }
}

/// A scalar type with neither aggregate functions nor comparison operators.
pub open spec fn opaque_type_view(representation: TypeRepresentation) -> ScalarTypeView {
    ScalarTypeView {
        representation,
        aggregate_functions: Map::empty(),
        comparison_operators: Map::empty(),
    }
}

/// The scalar types of the test connector, by name.
pub open spec fn spec_scalar_types() -> Map<Seq<char>, ScalarTypeView> {
    map![
        "String"@ => string_type_view(),
        "Int"@ => int_type_view(),
        "Bool"@ => bool_type_view(),
        "Actor_Name"@ => opaque_type_view(TypeRepresentation::String),
        "HeaderMap"@ => opaque_type_view(TypeRepresentation::JSON)
    ]
}

/// An aggregate function is what its name says: in every scalar type of the
/// test connector, the one named `min` is the minimum and the one named `max`
/// the maximum, and both `String` and `Int` have the two of them.
pub proof fn law_aggregates_named_for_what_they_compute()
    ensures
        forall|t: Seq<char>| #[trigger] spec_scalar_types().contains_key(t) && spec_scalar_types()[t].aggregate_functions.contains_key("min"@)
            ==> spec_scalar_types()[t].aggregate_functions["min"@] is Min,
        forall|t: Seq<char>| #[trigger] spec_scalar_types().contains_key(t) && spec_scalar_types()[t].aggregate_functions.contains_key("max"@)
            ==> spec_scalar_types()[t].aggregate_functions["max"@] is Max,
        spec_scalar_types()["String"@].aggregate_functions.dom() == set!["max"@, "min"@],
        spec_scalar_types()["Int"@].aggregate_functions.dom() == set!["max"@, "min"@],
{
    reveal_strlit("min");
    reveal_strlit("max");
    reveal_strlit("String");
    reveal_strlit("Int");
    reveal_strlit("Bool");
    reveal_strlit("Actor_Name");
    reveal_strlit("HeaderMap");
    assert("min"@[1] != "max"@[1]);
    assert(max_min()["min"@] is Min);
    assert(max_min()["max"@] is Max);
    assert("String"@[0] != "Int"@[0] && "String"@[0] != "Bool"@[0] && "String"@[0] != "Actor_Name"@[0]);
    assert("String"@.len() != "HeaderMap"@.len() && "Int"@.len() != "HeaderMap"@.len());
    assert("Int"@[0] != "Bool"@[0] && "Int"@[0] != "Actor_Name"@[0] && "Bool"@[0] != "Actor_Name"@[0]);
    assert("Bool"@[0] != "HeaderMap"@[0] && "Actor_Name"@[0] != "HeaderMap"@[0]);
    assert(spec_scalar_types()["String"@] == string_type_view());
    assert(spec_scalar_types()["Int"@] == int_type_view());
    assert(spec_scalar_types()["String"@].aggregate_functions.dom() =~= set!["max"@, "min"@]);
    assert(spec_scalar_types()["Int"@].aggregate_functions.dom() =~= set!["max"@, "min"@]);
}

fn custom(named_type: &str) -> (c: ComparisonOperatorDefinition)
    ensures
        c@ == custom_operator(named_type@),
{
    ComparisonOperatorDefinition::Custom { argument_type: Type::Named { name: named_type.to_string() } }
}

fn max_min_functions() -> (m: SortedMap<AggregateFunctionDefinition>)
    ensures
        m.map() == max_min(),
{
    let mut m = SortedMap::new();
    m.insert("max".to_string(), AggregateFunctionDefinition::Max);
    m.insert("min".to_string(), AggregateFunctionDefinition::Min);
    assert(m.map() =~= max_min());
    m
}

fn operator_map_insert(m: &mut SortedMap<ComparisonOperatorDefinition>, name: &str, c: ComparisonOperatorDefinition)
    ensures
        final(m).map().map_values(|c: ComparisonOperatorDefinition| c@) == old(m).map().map_values(
            |c: ComparisonOperatorDefinition| c@,
        ).insert(name@, c@),
{
    m.insert(name.to_string(), c);
    assert(m.map().map_values(|c: ComparisonOperatorDefinition| c@) =~= old(m).map().map_values(
        |c: ComparisonOperatorDefinition| c@,
    ).insert(name@, c@));
}

fn string_type() -> (s: ScalarType)
    ensures
        s@ == string_type_view(),
{
    let mut ops = SortedMap::new();
    assert(ops.map().map_values(|c: ComparisonOperatorDefinition| c@) =~= Map::empty());
    operator_map_insert(&mut ops, "like", custom("String"));
    operator_map_insert(&mut ops, "_eq", ComparisonOperatorDefinition::Equal);
    operator_map_insert(&mut ops, "starts_with", custom("String"));
    operator_map_insert(&mut ops, "ends_with", custom("String"));
    operator_map_insert(&mut ops, "_contains", custom("String"));
    operator_map_insert(&mut ops, "istarts_with", custom("String"));
    operator_map_insert(&mut ops, "iends_with", custom("String"));
    operator_map_insert(&mut ops, "_icontains", custom("String"));
    let s = ScalarType {
        representation: TypeRepresentation::String,
        aggregate_functions: max_min_functions(),
        comparison_operators: ops,
    };
    assert(s@.comparison_operators =~= string_type_view().comparison_operators);
    s
}

fn int_type() -> (s: ScalarType)
    ensures
        s@ == int_type_view(),
{
    let mut ops = SortedMap::new();
    assert(ops.map().map_values(|c: ComparisonOperatorDefinition| c@) =~= Map::empty());
    operator_map_insert(&mut ops, "_eq", ComparisonOperatorDefinition::Equal);
    let s = ScalarType {
        representation: TypeRepresentation::Int32,
        aggregate_functions: max_min_functions(),
        comparison_operators: ops,
    };
    assert(s@.comparison_operators =~= int_type_view().comparison_operators);
    s
}

fn bool_type() -> (s: ScalarType)
    ensures
        s@ == bool_type_view(),
{
    let mut ops = SortedMap::new();
    assert(ops.map().map_values(|c: ComparisonOperatorDefinition| c@) =~= Map::empty());
    operator_map_insert(&mut ops, "eq", custom("Bool"));
    let s = ScalarType {
        representation: TypeRepresentation::Boolean,
        aggregate_functions: SortedMap::new(),
        comparison_operators: ops,
    };
    assert(s@.comparison_operators =~= bool_type_view().comparison_operators);
    s
}

fn opaque_type(representation: TypeRepresentation) -> (s: ScalarType)
    ensures
        s@ == opaque_type_view(representation),
{
    let ops = SortedMap::new();
    let s = ScalarType { representation, aggregate_functions: SortedMap::new(), comparison_operators: ops };
    assert(s@.comparison_operators =~= Map::empty());
    s
}

fn scalar_map_insert(m: &mut SortedMap<ScalarType>, name: &str, s: ScalarType)
    ensures
        scalar_types_view(final(m).map()) == scalar_types_view(old(m).map()).insert(name@, s@),
{
    m.insert(name.to_string(), s);
    assert(scalar_types_view(m.map()) =~= scalar_types_view(old(m).map()).insert(name@, s@));
}

/// The scalar types of the test connector's schema, by name.
pub fn scalar_types() -> (m: SortedMap<ScalarType>)
    ensures
        scalar_types_view(m.map()) == spec_scalar_types(),
{
    let mut m = SortedMap::new();
    assert(scalar_types_view(m.map()) =~= Map::empty());
    scalar_map_insert(&mut m, "String", string_type());
    scalar_map_insert(&mut m, "Int", int_type());
    scalar_map_insert(&mut m, "Bool", bool_type());
    scalar_map_insert(&mut m, "Actor_Name", opaque_type(TypeRepresentation::String));
    scalar_map_insert(&mut m, "HeaderMap", opaque_type(TypeRepresentation::JSON));
    assert(scalar_types_view(m.map()) =~= spec_scalar_types());
    m
}

} // verus!
