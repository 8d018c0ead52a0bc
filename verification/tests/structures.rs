use ndc_pushdown::connector_types::{
    scalar_types, AggregateFunctionDefinition, ComparisonOperatorDefinition, Type, TypeRepresentation,
};
use ndc_pushdown::field::Field;
use ndc_pushdown::json::JsonValue;
use ndc_pushdown::metadata::DataConnectorLink;
use ndc_pushdown::names::Qualified;
use ndc_pushdown::query_plan::{
    uuid_v4_from_random, UUID_V4_BITS, UUID_V4_MASK, FieldsSelection, PredicateQueryTree, PredicateQueryTrees, QueryExecutionPlan, QueryNodeNew,
};
use ndc_pushdown::sorted_map::{compare_keys, SortedMap};

fn keys<V>(m: &SortedMap<V>) -> Vec<String> {
    m.entries().iter().map(|(k, _)| k.clone()).collect()
}

#[test]
fn sorted_map_keeps_keys_in_byte_order() {
    let mut m = SortedMap::new();
    for (k, v) in [("b", 1), ("_x", 2), ("a", 3), ("B", 4), ("ab", 5), ("é", 6)] {
        m.insert(k.to_string(), v);
    }
    assert_eq!(keys(&m), vec!["B", "_x", "a", "ab", "b", "é"]);
    assert_eq!(m.len(), 6);
}

#[test]
fn sorted_map_insert_replaces_in_place() {
    let mut m = SortedMap::new();
    m.insert("k".to_string(), 1);
    m.insert("j".to_string(), 2);
    m.insert("k".to_string(), 3);
    assert_eq!(keys(&m), vec!["j", "k"]);
    assert_eq!(m.entries()[1].1, 3);
}

#[test]
fn sorted_map_map_values_keeps_keys() {
    let mut m = SortedMap::new();
    m.insert("two".to_string(), 2);
    m.insert("one".to_string(), 1);
    let doubled = m.map_values(|v: &i32| v * 2);
    assert_eq!(keys(&doubled), vec!["one", "two"]);
    assert_eq!(doubled.entries()[0].1, 2);
    assert_eq!(doubled.entries()[1].1, 4);
}

#[test]
fn key_comparison_is_bytewise() {
    assert_eq!(compare_keys("a", "b"), -1);
    assert_eq!(compare_keys("b", "a"), 1);
    assert_eq!(compare_keys("abc", "abc"), 0);
    assert_eq!(compare_keys("ab", "abc"), -1);
    assert_eq!(compare_keys("", ""), 0);
    assert_eq!(compare_keys("Z", "a"), -1);
    assert_eq!(compare_keys("z", "é"), -1);
}

#[test]
fn json_clone_is_deep() {
    let v = JsonValue::Object(vec![
        ("a".to_string(), JsonValue::Array(vec![JsonValue::Number("1.5".to_string()), JsonValue::Null])),
        ("b".to_string(), JsonValue::Bool(true)),
    ]);
    let c = v.clone();
    match c {
        JsonValue::Object(members) => {
            assert_eq!(members.len(), 2);
            assert_eq!(members[0].0, "a");
            assert!(matches!(&members[0].1, JsonValue::Array(items) if items.len() == 2
                && matches!(&items[0], JsonValue::Number(n) if n == "1.5")));
            assert!(matches!(members[1].1, JsonValue::Bool(true)));
        },
        _ => panic!("not an object"),
    }
}

#[test]
fn scalar_types_are_declared_in_name_order() {
    let types = scalar_types();
    assert_eq!(keys(&types), vec!["Actor_Name", "Bool", "HeaderMap", "Int", "String"]);
    let string = &types.entries()[4].1;
    assert!(matches!(string.representation, TypeRepresentation::String));
    assert_eq!(keys(&string.aggregate_functions), vec!["max", "min"]);
    assert!(matches!(string.aggregate_functions.entries()[0].1, AggregateFunctionDefinition::Max));
    assert_eq!(
        keys(&string.comparison_operators),
        vec!["_contains", "_eq", "_icontains", "ends_with", "iends_with", "istarts_with", "like", "starts_with"]
    );
    assert!(matches!(string.comparison_operators.entries()[1].1, ComparisonOperatorDefinition::Equal));
    assert!(matches!(&string.comparison_operators.entries()[6].1,
        ComparisonOperatorDefinition::Custom { argument_type: Type::Named { name } } if name == "String"));
    let int = &types.entries()[3].1;
    assert!(matches!(int.representation, TypeRepresentation::Int32));
    assert_eq!(keys(&int.comparison_operators), vec!["_eq"]);
    let boolean = &types.entries()[1].1;
    assert!(matches!(boolean.representation, TypeRepresentation::Boolean));
    assert_eq!(boolean.aggregate_functions.len(), 0);
    assert!(matches!(&boolean.comparison_operators.entries()[0].1,
        ComparisonOperatorDefinition::Custom { argument_type: Type::Named { name } } if name == "Bool"));
    let header_map = &types.entries()[2].1;
    assert!(matches!(header_map.representation, TypeRepresentation::JSON));
    assert_eq!(header_map.comparison_operators.len(), 0);
    assert!(matches!(types.entries()[0].1.representation, TypeRepresentation::String));
}

fn plan(collection: &str) -> QueryExecutionPlan {
    QueryExecutionPlan {
        remote_predicates: PredicateQueryTrees::new(),
        query_node: QueryNodeNew { limit: Some(10), offset: None, fields: None },
        collection: collection.to_string(),
        variables: None,
        data_connector: DataConnectorLink {
            name: Qualified::new("app".to_string(), "db".to_string()),
            url: "http://db".to_string(),
        },
    }
}

#[test]
fn predicate_trees_get_random_version_4_keys() {
    let mut trees = PredicateQueryTrees::default();
    assert!(trees.0.is_empty());
    let k1 = trees
        .insert(PredicateQueryTree { query: plan("movies"), children: PredicateQueryTrees::new() })
        .unwrap();
    let k2 = trees
        .insert(PredicateQueryTree { query: plan("actors"), children: PredicateQueryTrees::new() })
        .unwrap();
    assert_ne!(k1, k2);
    assert_eq!(trees.0.len(), 2);
    assert_eq!(trees.0[&k1].query.collection, "movies");
    assert_eq!(trees.0[&k2].query.collection, "actors");
    for k in [k1, k2] {
        assert_eq!((k >> 76) & 0xF, 4);
        assert_eq!((k >> 62) & 0x3, 2);
        assert_eq!(uuid::Uuid::from_u128(k).get_version_num(), 4);
    }
}

#[test]
fn fields_selection_hashes_its_aliases_in_key_order() {
    let column = |c: &str| Field::Column { column: c.to_string(), fields: None, arguments: SortedMap::new() };
    let selection = FieldsSelection {
        fields: vec![("b".to_string(), column("x")), ("a".to_string(), column("y"))],
    };
    assert_eq!(selection.hashed_keys(), vec!["a".to_string(), "b".to_string()]);
    let reordered = FieldsSelection {
        fields: vec![("a".to_string(), column("y")), ("b".to_string(), column("x"))],
    };
    assert_eq!(selection.hashed_keys(), reordered.hashed_keys());
}

#[test]
fn sorted_map_order_depends_only_on_contents() {
    let mut a = SortedMap::new();
    let mut b = SortedMap::new();
    for (k, v) in [("movie_id", 1), ("limit", 2), ("offset", 3)] {
        a.insert(k.to_string(), v);
    }
    for (k, v) in [("offset", 3), ("movie_id", 1), ("limit", 2)] {
        b.insert(k.to_string(), v);
    }
    assert_eq!(a.entries(), b.entries());
    assert_eq!(keys(&a), vec!["limit", "movie_id", "offset"]);
}

#[test]
fn v4_uuid_keeps_the_random_bits_outside_version_and_variant() {
    assert_eq!(uuid_v4_from_random(0), 0x40008000000000000000);
    assert_eq!(uuid_v4_from_random(u128::MAX), 0xFFFFFFFFFFFF4FFFBFFFFFFFFFFFFFFF);
    assert_eq!(UUID_V4_BITS & !UUID_V4_MASK, 0);
    let random = 0x0123456789ABCDEF0123456789ABCDEFu128;
    let key = uuid_v4_from_random(random);
    assert_eq!(key, 0x0123456789AB4DEF8123456789ABCDEF);
    let uuid = uuid::Uuid::from_u128(key);
    assert_eq!(uuid.get_version_num(), 4);
    assert_eq!(uuid.get_variant(), uuid::Variant::RFC4122);
}
