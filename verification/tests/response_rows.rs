use indexmap::IndexMap;
use ndc_pushdown::json::JsonValue;
use ndc_pushdown::names::Qualified;
use ndc_pushdown::pushdown::CommandOutput;
use ndc_pushdown::response::{
    ndc_response_rows, ndc_response_value, rows_of_value, ErrorVisibility, ExecutionPlanError, RowSet,
};

fn object_output() -> CommandOutput {
    CommandOutput::Object(Qualified::new("app".to_string(), "Actor".to_string()))
}

fn list_output() -> CommandOutput {
    CommandOutput::ListOfObjects(Qualified::new("app".to_string(), "Actor".to_string()))
}

fn actor(id: &str) -> JsonValue {
    JsonValue::Object(vec![("id".to_string(), JsonValue::String(id.to_string()))])
}

fn row_with_value(value: JsonValue) -> IndexMap<String, JsonValue> {
    let mut row = IndexMap::new();
    row.insert("other".to_string(), JsonValue::Bool(true));
    row.insert("__value".to_string(), value);
    row.insert("last".to_string(), JsonValue::Null);
    row
}

fn response(value: JsonValue) -> Vec<RowSet> {
    vec![RowSet { rows: Some(vec![row_with_value(value)]) }]
}

fn format_message(r: Result<Vec<JsonValue>, ExecutionPlanError>) -> String {
    match r {
        Err(ExecutionPlanError::NDCResponseFormat(m)) => m,
        other => panic!("expected a format error, got {:?}", other),
    }
}

fn id_of(v: &JsonValue) -> &str {
    match v {
        JsonValue::Object(members) => match &members[0].1 {
            JsonValue::String(s) => s.as_str(),
            _ => panic!("id is not a string"),
        },
        _ => panic!("row is not an object"),
    }
}

#[test]
fn object_result_is_one_row() {
    let rows = ndc_response_rows(response(actor("a1")), &object_output()).unwrap();
    assert_eq!(rows.len(), 1);
    assert_eq!(id_of(&rows[0]), "a1");
}

#[test]
fn null_object_result_is_no_row() {
    let rows = ndc_response_rows(response(JsonValue::Null), &object_output()).unwrap();
    assert!(rows.is_empty());
}

#[test]
fn list_result_gives_its_elements_as_rows() {
    let value = JsonValue::Array(vec![actor("a1"), actor("a2")]);
    let rows = ndc_response_rows(response(value), &list_output()).unwrap();
    assert_eq!(rows.len(), 2);
    assert_eq!(id_of(&rows[0]), "a1");
    assert_eq!(id_of(&rows[1]), "a2");
}

#[test]
fn null_list_result_is_no_row() {
    let rows = ndc_response_rows(response(JsonValue::Null), &list_output()).unwrap();
    assert!(rows.is_empty());
}

#[test]
fn result_is_read_from_the_last_row_of_the_last_row_set() {
    let first = RowSet { rows: Some(vec![row_with_value(actor("first"))]) };
    let last = RowSet {
        rows: Some(vec![row_with_value(actor("not_last_row")), row_with_value(actor("last"))]),
    };
    let rows = ndc_response_rows(vec![first, last], &object_output()).unwrap();
    assert_eq!(id_of(&rows[0]), "last");
}

#[test]
fn no_row_sets_is_a_format_error() {
    let m = format_message(ndc_response_rows(vec![], &object_output()));
    assert_eq!(m, "no row sets found");
}

#[test]
fn row_set_without_rows_is_a_format_error() {
    let m = format_message(ndc_response_rows(vec![RowSet { rows: None }], &object_output()));
    assert_eq!(m, "no rows found for the row set");
}

#[test]
fn empty_rows_is_a_format_error() {
    let m = format_message(ndc_response_rows(vec![RowSet { rows: Some(vec![]) }], &list_output()));
    assert_eq!(m, "expecting at least one row");
}

#[test]
fn row_without_value_field_is_a_format_error() {
    let mut row = IndexMap::new();
    row.insert("value".to_string(), actor("a1"));
    let m = format_message(ndc_response_rows(vec![RowSet { rows: Some(vec![row]) }], &object_output()));
    assert_eq!(m, "missing field: {FUNCTION_IR_VALUE_COLUMN_NAME}");
}

#[test]
fn list_for_object_output_is_a_format_error() {
    let m = format_message(ndc_response_rows(response(JsonValue::Array(vec![])), &object_output()));
    assert_eq!(m, "expecting an object for __value field");
}

#[test]
fn object_for_list_output_is_a_format_error() {
    let m = format_message(ndc_response_rows(response(actor("a1")), &list_output()));
    assert_eq!(m, "expecting a list for __value field");
}

#[test]
fn scalar_results_are_format_errors() {
    let m = format_message(ndc_response_rows(response(JsonValue::Number("3".to_string())), &list_output()));
    assert_eq!(m, "expecting a list for __value field");
    let m = format_message(ndc_response_rows(response(JsonValue::Bool(false)), &object_output()));
    assert_eq!(m, "expecting an object for __value field");
}

#[test]
fn execution_errors_are_internal() {
    for e in [
        ExecutionPlanError::NDCExecutionError("down".to_string()),
        ExecutionPlanError::NDCResponseFormat("bad".to_string()),
        ExecutionPlanError::ArrowError("schema".to_string()),
        ExecutionPlanError::TracingContextNotFound,
    ] {
        assert!(matches!(e.visibility(), ErrorVisibility::Internal));
    }
}

#[test]
fn value_and_rows_are_read_in_two_steps() {
    let value = ndc_response_value(response(JsonValue::Array(vec![actor("a1")]))).unwrap();
    assert!(matches!(&value, JsonValue::Array(items) if items.len() == 1));
    let rows = rows_of_value(value, &list_output()).unwrap();
    assert_eq!(id_of(&rows[0]), "a1");
    let m = format_message(rows_of_value(JsonValue::String("x".to_string()), &object_output()));
    assert_eq!(m, "expecting an object for __value field");
    assert!(matches!(ndc_response_value(vec![]), Err(ExecutionPlanError::NDCResponseFormat(m)) if m == "no row sets found"));
}
