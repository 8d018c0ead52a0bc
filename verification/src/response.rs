//! Reading the result of an NDC function call out of the data connector's
//! response.

use vstd::prelude::*;

use crate::field::FUNCTION_IR_VALUE_COLUMN_NAME;
use crate::json::JsonValue;
use crate::pushdown::CommandOutput;
use crate::sorted_map::{has_key, keys_distinct, pairs_map};

verus! {

broadcast use vstd::string::to_string_from_display_ensures_for_str;

#[verifier::external_type_specification]
#[verifier::external_body]
#[verifier::reject_recursive_types(K)]
#[verifier::reject_recursive_types(V)]
#[verifier::reject_recursive_types(S)]
pub struct ExIndexMap<K, V, S>(indexmap::IndexMap<K, V, S>);

/// The fields of a row, in the map's order, each name by its view.
pub uninterp spec fn row_entries(row: indexmap::IndexMap<String, JsonValue>) -> Seq<(Seq<char>, JsonValue)>;

/// Removes the field `key` from `row` and returns its value.
///
/// Calls `indexmap::IndexMap::swap_remove`. The contract claims what its
/// source and documentation show: the keys of a map are distinct; the value
/// under `key` comes back, or `None` when there is none; the last entry takes
/// the place of the removed one.
#[verifier::external_body]
fn row_swap_remove(row: &mut indexmap::IndexMap<String, JsonValue>, key: &str) -> (r: Option<JsonValue>)
    ensures
        keys_distinct(row_entries(*old(row))),
        match r {
            Some(v) => pairs_map(row_entries(*old(row))).contains_key(key@) && v == pairs_map(
                row_entries(*old(row)),
            )[key@],
            None => !pairs_map(row_entries(*old(row))).contains_key(key@),
        },
        has_key(row_entries(*old(row)), key@) ==> ({
            let entries = row_entries(*old(row));
            let i = choose|i: int| 0 <= i < entries.len() && #[trigger] entries[i].0 == key@;
            row_entries(*final(row)) == entries.update(i, entries.last()).drop_last()
        }),
        !has_key(row_entries(*old(row)), key@) ==> row_entries(*final(row)) == row_entries(*old(row)),
{
    row.swap_remove(key)
}

/// One set of rows in an NDC response.
#[derive(Debug)]
pub struct RowSet {
    pub rows: Option<Vec<indexmap::IndexMap<String, JsonValue>>>,
}

/// How visible an error is to the user of the engine.
#[derive(Debug)]
pub enum ErrorVisibility {
    Internal,
    User,
}

/// Why the execution of an NDC function call failed.
#[derive(Debug)]
pub enum ExecutionPlanError {
    NDCExecutionError(String),
    NDCResponseFormat(String),
    ArrowError(String),
    TracingContextNotFound,
}

impl ExecutionPlanError {
    /// Every execution error is internal.
    pub fn visibility(&self) -> (v: ErrorVisibility)
        ensures
            v is Internal,
    {
        ErrorVisibility::Internal
    }
}

/// The result of a function call, or the message of the format error: the
/// `__value` field of the last row of the last row set.
pub open spec fn spec_ndc_response_value(rowsets: Seq<RowSet>) -> Result<JsonValue, Seq<char>> {
    if rowsets.len() == 0 {
        Err("no row sets found"@)
    } else {
        match rowsets.last().rows {
            None => Err("no rows found for the row set"@),
            Some(rows) => if rows@.len() == 0 {
                Err("expecting at least one row"@)
            } else {
                let fields = pairs_map(row_entries(rows@.last()));
                if !fields.contains_key(FUNCTION_IR_VALUE_COLUMN_NAME@) {
                    Err("missing field: {FUNCTION_IR_VALUE_COLUMN_NAME}"@)
                } else {
                    Ok(fields[FUNCTION_IR_VALUE_COLUMN_NAME@])
                }
            },
        }
    }
}

/// The rows to decode from a function's result, or the message of the
/// format error: an object is one row, a list holds the rows, null is no row.
pub open spec fn spec_rows_of_value(value: JsonValue, output: CommandOutput) -> Result<
    Seq<JsonValue>,
    Seq<char>,
> {
    match output {
        CommandOutput::Object(_) => match value {
            JsonValue::Object(_) => Ok(seq![value]),
            JsonValue::Null => Ok(Seq::empty()),
            _ => Err("expecting an object for __value field"@),
        },
        CommandOutput::ListOfObjects(_) => match value {
            JsonValue::Null => Ok(Seq::empty()),
            JsonValue::Array(items) => Ok(items@),
            _ => Err("expecting a list for __value field"@),
        },
    }
}

/// The rows to decode from the result of a function call, or the message of
/// the format error.
pub open spec fn spec_ndc_response_rows(rowsets: Seq<RowSet>, output: CommandOutput) -> Result<
    Seq<JsonValue>,
    Seq<char>,
> {
    match spec_ndc_response_value(rowsets) {
        Err(m) => Err(m),
        Ok(value) => spec_rows_of_value(value, output),
    }
}

/// What the rows of a function's result are. For an object output: an
/// object is exactly one row, that object; null is no row; anything else is
/// an error. For a list output: a list gives its elements as the rows, in
/// order; null is no row; anything else is an error.
pub proof fn law_rows_of_value(value: JsonValue, output: CommandOutput)
    ensures
        output is Object ==> (value is Object ==> spec_rows_of_value(value, output) == Ok::<
            Seq<JsonValue>,
            Seq<char>,
        >(seq![value])) && (value is Null ==> spec_rows_of_value(value, output) == Ok::<
            Seq<JsonValue>,
            Seq<char>,
        >(Seq::empty())) && (!(value is Object) && !(value is Null) ==> spec_rows_of_value(
            value,
            output,
        ) is Err),
        output is ListOfObjects ==> (value matches JsonValue::Array(items)
            ==> spec_rows_of_value(value, output) == Ok::<Seq<JsonValue>, Seq<char>>(items@)) && (
        value is Null ==> spec_rows_of_value(value, output) == Ok::<Seq<JsonValue>, Seq<char>>(
            Seq::empty(),
        )) && (!(value is Array) && !(value is Null) ==> spec_rows_of_value(value, output) is Err),
{
}

/// The rows of a response are the rows of the `__value` field of its last
/// row: an object result gives exactly that object as its one row, a list
/// result gives the list's elements, in order.
pub proof fn law_result_rows(rowsets: Seq<RowSet>, output: CommandOutput)
    requires
        spec_ndc_response_value(rowsets) is Ok,
    ensures
        ({
            let value = spec_ndc_response_value(rowsets)->Ok_0;
            let fields = pairs_map(row_entries(rowsets.last().rows->Some_0@.last()));
            &&& fields.contains_key(FUNCTION_IR_VALUE_COLUMN_NAME@)
            &&& value == fields[FUNCTION_IR_VALUE_COLUMN_NAME@]
            &&& output is Object && value is Object ==> spec_ndc_response_rows(rowsets, output)
                == Ok::<Seq<JsonValue>, Seq<char>>(seq![value])
            &&& output is ListOfObjects ==> (value matches JsonValue::Array(items)
                ==> spec_ndc_response_rows(rowsets, output) == Ok::<Seq<JsonValue>, Seq<char>>(
                items@,
            ))
        }),
{
}

fn format_error(message: &str) -> (e: ExecutionPlanError)
    ensures
        e matches ExecutionPlanError::NDCResponseFormat(m) && m@ == message@,
{
    ExecutionPlanError::NDCResponseFormat(message.to_string())
}

/// Takes the result of a function call out of the row sets of an NDC response.
pub fn ndc_response_value(rowsets: Vec<RowSet>) -> (r: Result<JsonValue, ExecutionPlanError>)
    ensures
        match r {
            Ok(value) => spec_ndc_response_value(rowsets@) == Ok::<JsonValue, Seq<char>>(value),
            Err(e) => spec_ndc_response_value(rowsets@) matches Err(message)
                && e matches ExecutionPlanError::NDCResponseFormat(m) && m@ == message,
        },
{
    let mut rowsets = rowsets;
    let rowset = match rowsets.pop() {
        Some(rowset) => rowset,
        None => {
            return Err(format_error("no row sets found"));
        },
    };
    let mut rows = match rowset.rows {
        Some(rows) => rows,
        None => {
            return Err(format_error("no rows found for the row set"));
        },
    };
    let mut row = match rows.pop() {
        Some(row) => row,
        None => {
            return Err(format_error("expecting at least one row"));
        },
    };
    match row_swap_remove(&mut row, FUNCTION_IR_VALUE_COLUMN_NAME) {
        Some(value) => Ok(value),
        None => Err(format_error("missing field: {FUNCTION_IR_VALUE_COLUMN_NAME}")),
    }
}

/// The rows to decode from a function's result.
pub fn rows_of_value(value: JsonValue, output: &CommandOutput) -> (r: Result<
    Vec<JsonValue>,
    ExecutionPlanError,
>)
    ensures
        match r {
            Ok(rows) => spec_rows_of_value(value, *output) == Ok::<Seq<JsonValue>, Seq<char>>(rows@),
            Err(e) => spec_rows_of_value(value, *output) matches Err(message)
                && e matches ExecutionPlanError::NDCResponseFormat(m) && m@ == message,
        },
        output is Object && value is Object ==> (r matches Ok(rows) && rows@ == seq![value]),
        output is ListOfObjects ==> (value matches JsonValue::Array(items) ==> (r matches Ok(rows)
            && rows@ == items@)),
        value is Null ==> (r matches Ok(rows) && rows@.len() == 0),
{
    match output {
        CommandOutput::Object(_) => match value {
            JsonValue::Object(members) => {
                let mut out: Vec<JsonValue> = Vec::new();
                out.push(JsonValue::Object(members));
                assert(out@ =~= seq![value]);
                Ok(out)
            },
            JsonValue::Null => Ok(Vec::new()),
            _ => Err(format_error("expecting an object for __value field")),
        },
        CommandOutput::ListOfObjects(_) => match value {
            JsonValue::Null => Ok(Vec::new()),
            JsonValue::Array(items) => Ok(items),
            _ => Err(format_error("expecting a list for __value field")),
        },
    }
}

/// Takes the rows to decode out of the row sets of an NDC response.
pub fn ndc_response_rows(rowsets: Vec<RowSet>, output: &CommandOutput) -> (r: Result<
    Vec<JsonValue>,
    ExecutionPlanError,
>)
    ensures
        match r {
            Ok(rows) => spec_ndc_response_rows(rowsets@, *output) == Ok::<Seq<JsonValue>, Seq<char>>(
                rows@,
            ),
            Err(e) => spec_ndc_response_rows(rowsets@, *output) matches Err(message)
                && e matches ExecutionPlanError::NDCResponseFormat(m) && m@ == message,
        },
{
    let value = ndc_response_value(rowsets)?;
    rows_of_value(value, output)
}

} // verus!
