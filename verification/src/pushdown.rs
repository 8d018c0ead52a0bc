//! Planning the call of an NDC function: resolving a command selection
//! against the metadata into the fields, arguments and function to send to a
//! data connector.

use vstd::prelude::*;

use crate::field::{
    arguments_view, fields_view, Argument, ArgumentView, Field, FieldView, NestedArray, NestedField,
    NestedFieldView, NestedObject, FUNCTION_IR_VALUE_COLUMN_NAME,
};
use crate::json::{JsonValue, JsonView};
use crate::metadata::{
    argument_at, argument_count, argument_entries, CommandPermission, CommandSelection, CommandSource, CommandWithPermissions, DataConnectorCommand,
    DataConnectorLink, FieldMapping, Metadata, ObjectSubSelection, ObjectTypeWithRelationships,
    QualifiedTypeReference, Session, TypeMapping, TypeOutputPermission, Value,
};
use crate::names::{
    contains_name, find_by_name, find_by_qualified, lemma_lookup, lookup, names_view, Qualified,
};
use crate::sorted_map::{lemma_pairs_map_pointwise, SortedMap};

verus! {

broadcast use vstd::string::to_string_from_display_ensures_for_str;

/// What a command returns: one object, or a list of objects, of an object type.
#[derive(Debug)]
pub enum CommandOutput {
    Object(Qualified),
    ListOfObjects(Qualified),
}

impl Clone for CommandOutput {
    fn clone(&self) -> (r: Self)
        ensures
            r == *self,
    {
        match self {
            CommandOutput::Object(t) => CommandOutput::Object(t.clone()),
            CommandOutput::ListOfObjects(t) => CommandOutput::ListOfObjects(t.clone()),
        }
    }
}

/// The object type that a command's output is made of.
pub open spec fn output_type(output: CommandOutput) -> Qualified {
    match output {
        CommandOutput::Object(t) => t,
        CommandOutput::ListOfObjects(t) => t,
    }
}

/// The fields of a function call: the function's result column, with the
/// selected fields nested inside it, directly for an object and under an
/// array for a list of objects.
pub open spec fn wrapped_fields_view(
    output: CommandOutput,
    inner: Seq<(Seq<char>, FieldView)>,
) -> Seq<(Seq<char>, FieldView)> {
    let object = NestedFieldView::Object(inner);
    let value = match output {
        CommandOutput::Object(_) => object,
        CommandOutput::ListOfObjects(_) => NestedFieldView::Array(Box::new(object)),
    };
    seq![
        (
            FUNCTION_IR_VALUE_COLUMN_NAME@,
            FieldView::Column {
                column: FUNCTION_IR_VALUE_COLUMN_NAME@,
                fields: Some(value),
                arguments: Map::empty(),
            },
        ),
    ]
}

/// Nests the fields selected from a command's output inside the function's
/// result column.
pub fn wrap_ndc_fields(command_output: &CommandOutput, ndc_fields: Vec<(String, Field)>) -> (r: Vec<
    (String, Field),
>)
    ensures
        fields_view(r@) == wrapped_fields_view(*command_output, fields_view(ndc_fields@)),
{
    let ghost inner = fields_view(ndc_fields@);
    let object = NestedField::Object(NestedObject { fields: ndc_fields });
    assert(object@ == NestedFieldView::Object(inner)) by {
        if let NestedFieldView::Object(s) = object@ {
            assert(s =~= inner);
        }
    }
    let value_field = match command_output {
        CommandOutput::Object(_) => object,
        CommandOutput::ListOfObjects(_) => NestedField::Array(NestedArray { fields: Box::new(object) }),
    };
    let arguments: SortedMap<Argument> = SortedMap::new();
    assert(arguments_view(arguments.map()) =~= Map::empty());
    let column = Field::Column {
        column: FUNCTION_IR_VALUE_COLUMN_NAME.to_string(),
        fields: Some(value_field),
        arguments,
    };
    let mut r: Vec<(String, Field)> = Vec::new();
    r.push((FUNCTION_IR_VALUE_COLUMN_NAME.to_string(), column));
    assert(fields_view(r@) =~= wrapped_fields_view(*command_output, inner));
    r
}

/// Whether an error is a fault of the engine or of the request's plan.
#[derive(Debug)]
pub enum ErrorKind {
    Internal,
    Plan,
}

/// Why a command selection cannot be planned as an NDC function call.
#[derive(Debug)]
pub enum PlanningError {
    CommandNotFound { command: Qualified },
    CommandHasNoSource { command: Qualified },
    TypeMappingNotFound { object_type_name: Qualified, command: Qualified },
    ObjectTypeNotFound { object_type_name: Qualified },
    NoSelectPermission { role: String, command: Qualified },
    UnsupportedSelection,
    FieldNotPermitted { role: String, field: String, object_type_name: Qualified, command: Qualified },
    FieldMappingNotFound { field: String, object_type_name: Qualified, command: Qualified },
    FieldTypeNotFound { field: String },
    CommandNotPermitted { role: String, command: Qualified },
    ArgumentMappingNotFound { argument: String, command: Qualified },
    BooleanExpressionArgument { argument: String, command: Qualified },
    NotAFunction,
    /// An error met while planning a nested selection.
    Internal(String),
}

impl PlanningError {
    /// Which kind of error this is.
    pub fn kind(&self) -> (k: ErrorKind)
        ensures
            (k is Plan) == (self is NoSelectPermission || self is FieldNotPermitted
                || self is CommandNotPermitted),
    {
        match self {
            PlanningError::NoSelectPermission { .. } => ErrorKind::Plan,
            PlanningError::FieldNotPermitted { .. } => ErrorKind::Plan,
            PlanningError::CommandNotPermitted { .. } => ErrorKind::Plan,
            _ => ErrorKind::Internal,
        }
    }
}

/// How a qualified name reads in a message: the name, then its subgraph.
pub open spec fn qualified_text(q: Qualified) -> Seq<char> {
    q.name@ + " (in subgraph "@ + q.subgraph@ + ")"@
}

/// The message of a planning error.
pub open spec fn spec_message(e: PlanningError) -> Seq<char> {
    match e {
        PlanningError::CommandNotFound { command } => "command "@ + qualified_text(command)
            + " not found in metadata"@,
        PlanningError::CommandHasNoSource { command } => "command "@ + qualified_text(command)
            + " has no source"@,
        PlanningError::TypeMappingNotFound { object_type_name, command } =>
            "couldn't fetch type_mapping of type "@ + qualified_text(object_type_name)
            + " for command "@ + qualified_text(command),
        PlanningError::ObjectTypeNotFound { object_type_name } => "object type "@ + qualified_text(
            object_type_name,
        ) + " not found in metadata"@,
        PlanningError::NoSelectPermission { role, command } => "role "@ + role@
            + " does not have permission to select any fields of command "@ + qualified_text(command),
        PlanningError::UnsupportedSelection =>
            "only normal field selections are supported in NDCPushDownPlanner."@,
        PlanningError::FieldNotPermitted { role, field, object_type_name, command } => "role "@
            + role@ + " does not have permission to select the field "@ + field@ + " from type "@
            + qualified_text(object_type_name) + " of command "@ + qualified_text(command),
        PlanningError::FieldMappingNotFound { field, object_type_name, command } =>
            "couldn't fetch field mapping of field "@ + field@ + " in type "@ + qualified_text(
                object_type_name,
            ) + " for command "@ + qualified_text(command),
        PlanningError::FieldTypeNotFound { field } => "could not look up type of field "@ + field@,
        PlanningError::CommandNotPermitted { role, command } => "role "@ + role@
            + " does not have permission for command "@ + qualified_text(command),
        PlanningError::ArgumentMappingNotFound { argument, command } =>
            "couldn't fetch argument mapping for argument "@ + argument@ + " of command "@
            + qualified_text(command),
        PlanningError::BooleanExpressionArgument { argument, command } =>
            "unexpected boolean expression as value for argument "@ + argument@ + " of command "@
            + qualified_text(command),
        PlanningError::NotAFunction => "only ndc functions are allowed to be executed"@,
        PlanningError::Internal(message) => message@,
    }
}

/// Appends how a qualified name reads to `s`.
fn push_qualified(s: &mut String, q: &Qualified)
    ensures
        final(s)@ == old(s)@ + qualified_text(*q),
{
    s.append(q.name.as_str());
    s.append(" (in subgraph ");
    s.append(q.subgraph.as_str());
    s.append(")");
    assert(final(s)@ =~= old(s)@ + qualified_text(*q));
}

/// A message that begins with `prefix`.
fn starting(prefix: &str) -> (s: String)
    ensures
        s@ == prefix@,
{
    prefix.to_string()
}

impl PlanningError {
    /// The message of the error, as the query engine reports it.
    pub fn message(&self) -> (m: String)
        ensures
            m@ == spec_message(*self),
    {
        match self {
            PlanningError::CommandNotFound { command } => {
                let mut s = starting("command ");
                push_qualified(&mut s, command);
                s.append(" not found in metadata");
                assert(s@ =~= spec_message(*self));
                s
            },
            PlanningError::CommandHasNoSource { command } => {
                let mut s = starting("command ");
                push_qualified(&mut s, command);
                s.append(" has no source");
                assert(s@ =~= spec_message(*self));
                s
            },
            PlanningError::TypeMappingNotFound { object_type_name, command } => {
                let mut s = starting("couldn't fetch type_mapping of type ");
                push_qualified(&mut s, object_type_name);
                s.append(" for command ");
                push_qualified(&mut s, command);
                assert(s@ =~= spec_message(*self));
                s
            },
            PlanningError::ObjectTypeNotFound { object_type_name } => {
                let mut s = starting("object type ");
                push_qualified(&mut s, object_type_name);
                s.append(" not found in metadata");
                assert(s@ =~= spec_message(*self));
                s
            },
            PlanningError::NoSelectPermission { role, command } => {
                let mut s = starting("role ");
                s.append(role.as_str());
                s.append(" does not have permission to select any fields of command ");
                push_qualified(&mut s, command);
                assert(s@ =~= spec_message(*self));
                s
            },
            PlanningError::UnsupportedSelection => starting(
                "only normal field selections are supported in NDCPushDownPlanner.",
            ),
            PlanningError::FieldNotPermitted { role, field, object_type_name, command } => {
                let mut s = starting("role ");
                s.append(role.as_str());
                s.append(" does not have permission to select the field ");
                s.append(field.as_str());
                s.append(" from type ");
                push_qualified(&mut s, object_type_name);
                s.append(" of command ");
                push_qualified(&mut s, command);
                assert(s@ =~= spec_message(*self));
                s
            },
            PlanningError::FieldMappingNotFound { field, object_type_name, command } => {
                let mut s = starting("couldn't fetch field mapping of field ");
                s.append(field.as_str());
                s.append(" in type ");
                push_qualified(&mut s, object_type_name);
                s.append(" for command ");
                push_qualified(&mut s, command);
                assert(s@ =~= spec_message(*self));
                s
            },
            PlanningError::FieldTypeNotFound { field } => {
                let mut s = starting("could not look up type of field ");
                s.append(field.as_str());
                s
            },
            PlanningError::CommandNotPermitted { role, command } => {
                let mut s = starting("role ");
                s.append(role.as_str());
                s.append(" does not have permission for command ");
                push_qualified(&mut s, command);
                assert(s@ =~= spec_message(*self));
                s
            },
            PlanningError::ArgumentMappingNotFound { argument, command } => {
                let mut s = starting("couldn't fetch argument mapping for argument ");
                s.append(argument.as_str());
                s.append(" of command ");
                push_qualified(&mut s, command);
                assert(s@ =~= spec_message(*self));
                s
            },
            PlanningError::BooleanExpressionArgument { argument, command } => {
                let mut s = starting("unexpected boolean expression as value for argument ");
                s.append(argument.as_str());
                s.append(" of command ");
                push_qualified(&mut s, command);
                assert(s@ =~= spec_message(*self));
                s
            },
            PlanningError::NotAFunction => starting("only ndc functions are allowed to be executed"),
            PlanningError::Internal(message) => message.clone(),
        }
    }
}

/// What planning finds in the metadata for a command before it looks at the
/// selected fields: the command, its source, the field mappings and the
/// definition of its output type, and what the session's role may select of it.
pub type CommandContext = (
    CommandWithPermissions,
    CommandSource,
    Vec<(String, FieldMapping)>,
    ObjectTypeWithRelationships,
    TypeOutputPermission,
);

/// The qualified name of the command that a selection targets.
pub open spec fn command_name(sel: CommandSelection) -> Qualified {
    Qualified { subgraph: sel.target.subgraph, name: sel.target.command_name }
}

/// Looks up the command, its source, the type mapping and the definition of
/// its output type, and the role's output permission on that type; the first
/// that is missing is the error.
pub open spec fn spec_resolve_command(
    metadata: Metadata,
    session: Session,
    sel: CommandSelection,
    output: CommandOutput,
) -> Result<CommandContext, PlanningError> {
    let command = command_name(sel);
    let ty = output_type(output);
    match lookup(metadata.commands@, command@) {
        None => Err(PlanningError::CommandNotFound { command }),
        Some(cmd) => match cmd.command.source {
            None => Err(PlanningError::CommandHasNoSource { command }),
            Some(source) => match lookup(source.type_mappings@, ty@) {
                None => Err(PlanningError::TypeMappingNotFound { object_type_name: ty, command }),
                Some(mapping) => match mapping {
                    TypeMapping::Object { field_mappings } => match lookup(
                        metadata.object_types@,
                        ty@,
                    ) {
                        None => Err(PlanningError::ObjectTypeNotFound { object_type_name: ty }),
                        Some(object_type) => match lookup(
                            object_type.type_output_permissions@,
                            session.role@,
                        ) {
                            None => Err(
                                PlanningError::NoSelectPermission { role: session.role, command },
                            ),
                            Some(permission) => Ok(
                                (cmd, source, field_mappings, object_type, permission),
                            ),
                        },
                    },
                },
            },
        },
    }
}

/// The object type that a command's output is made of.
fn output_type_name(output: &CommandOutput) -> (r: &Qualified)
    ensures
        *r == output_type(*output),
{
    match output {
        CommandOutput::ListOfObjects(ty) => ty,
        CommandOutput::Object(ty) => ty,
    }
}

/// Resolves what [`spec_resolve_command`] describes.
fn resolve_command<'a>(
    metadata: &'a Metadata,
    session: &Session,
    sel: &CommandSelection,
    output: &CommandOutput,
) -> (r: Result<
    (
        &'a CommandWithPermissions,
        &'a CommandSource,
        &'a Vec<(String, FieldMapping)>,
        &'a ObjectTypeWithRelationships,
        &'a TypeOutputPermission,
    ),
    PlanningError,
>)
    ensures
        match r {
            Ok(t) => spec_resolve_command(*metadata, *session, *sel, *output) == Ok::<
                CommandContext,
                PlanningError,
            >((*t.0, *t.1, *t.2, *t.3, *t.4)),
            Err(e) => spec_resolve_command(*metadata, *session, *sel, *output) == Err::<
                CommandContext,
                PlanningError,
            >(e),
        },
{
    let command = Qualified::new(sel.target.subgraph.clone(), sel.target.command_name.clone());
    let cmd = match find_by_qualified(&metadata.commands, &command) {
        Some(c) => c,
        None => {
            return Err(PlanningError::CommandNotFound { command });
        },
    };
    let source = match &cmd.command.source {
        Some(s) => s,
        None => {
            return Err(PlanningError::CommandHasNoSource { command });
        },
    };
    let ty = output_type_name(output);
    let field_mappings = match find_by_qualified(&source.type_mappings, ty) {
        Some(TypeMapping::Object { field_mappings }) => field_mappings,
        None => {
            return Err(PlanningError::TypeMappingNotFound { object_type_name: ty.clone(), command });
        },
    };
    let object_type = match find_by_qualified(&metadata.object_types, ty) {
        Some(o) => o,
        None => {
            return Err(PlanningError::ObjectTypeNotFound { object_type_name: ty.clone() });
        },
    };
    let permission = match find_by_name(&object_type.type_output_permissions, &session.role) {
        Some(p) => p,
        None => {
            return Err(PlanningError::NoSelectPermission { role: session.role.clone(), command });
        },
    };
    Ok((cmd, source, field_mappings, object_type, permission))
}

/// The view of a map of JSON values.
pub open spec fn json_map_view(m: Map<Seq<char>, JsonValue>) -> Map<Seq<char>, JsonView> {
    m.map_values(|v: JsonValue| v@)
}

/// Adds one argument of the query to the data connector's arguments: under
/// the name its mapping gives, if it has one and its value is a literal.
pub open spec fn argument_step(
    source: CommandSource,
    command: Qualified,
    argument: (String, Value),
    acc: Map<Seq<char>, JsonView>,
) -> Result<Map<Seq<char>, JsonView>, PlanningError> {
    match lookup(source.argument_mappings@, argument.0@) {
        None => Err(PlanningError::ArgumentMappingNotFound { argument: argument.0, command }),
        Some(ndc_name) => match argument.1 {
            Value::BooleanExpression => Err(
                PlanningError::BooleanExpressionArgument { argument: argument.0, command },
            ),
            Value::Literal(v) => Ok(acc.insert(ndc_name@, v@)),
        },
    }
}

/// The data connector's arguments for the query's arguments, taken in order;
/// the first that cannot be passed is the error.
pub open spec fn spec_arguments(
    source: CommandSource,
    command: Qualified,
    arguments: Seq<(String, Value)>,
) -> Result<Map<Seq<char>, JsonView>, PlanningError>
    decreases arguments.len(),
{
    if arguments.len() == 0 {
        Ok(Map::empty())
    } else {
        match spec_arguments(source, command, arguments.drop_last()) {
            Err(e) => Err(e),
            Ok(acc) => argument_step(source, command, arguments.last(), acc),
        }
    }
}

/// Maps the query's arguments to the data connector's, as [`spec_arguments`] says.
fn resolve_arguments(
    source: &CommandSource,
    command: &Qualified,
    arguments: &indexmap::IndexMap<String, Value>,
) -> (r: Result<SortedMap<JsonValue>, PlanningError>)
    ensures
        match r {
            Ok(m) => spec_arguments(*source, *command, argument_entries(*arguments)) == Ok::<
                Map<Seq<char>, JsonView>,
                PlanningError,
            >(json_map_view(m.map())),
            Err(e) => spec_arguments(*source, *command, argument_entries(*arguments)) == Err::<
                Map<Seq<char>, JsonView>,
                PlanningError,
            >(e),
        },
{
    let mut ndc_arguments: SortedMap<JsonValue> = SortedMap::new();
    let ghost entries = argument_entries(*arguments);
    let n = argument_count(arguments);
    assert(entries.take(0) =~= Seq::<(String, Value)>::empty());
    assert(json_map_view(ndc_arguments.map()) =~= Map::empty());
    for i in 0..n
        invariant
            n == entries.len(),
            entries == argument_entries(*arguments),
            spec_arguments(*source, *command, entries.take(i as int)) == Ok::<
                Map<Seq<char>, JsonView>,
                PlanningError,
            >(json_map_view(ndc_arguments.map())),
    {
        assert(entries.take(i + 1).drop_last() =~= entries.take(i as int));
        assert(entries.take(i + 1).last() == entries[i as int]);
        let (argument_name, argument_value) = match argument_at(arguments, i) {
            Some(entry) => entry,
            None => {
                proof {
                    assert(false);
                }
                return Ok(ndc_arguments);
            },
        };
        let ndc_argument_name = match find_by_name(&source.argument_mappings, argument_name) {
            Some(name) => name,
            None => {
                proof {
                    lemma_arguments_error_extends(*source, *command, entries, i + 1);
                }
                return Err(
                    PlanningError::ArgumentMappingNotFound {
                        argument: argument_name.clone(),
                        command: command.clone(),
                    },
                );
            },
        };
        let ndc_argument_value = match argument_value {
            Value::BooleanExpression => {
                proof {
                    lemma_arguments_error_extends(*source, *command, entries, i + 1);
                }
                return Err(
                    PlanningError::BooleanExpressionArgument {
                        argument: argument_name.clone(),
                        command: command.clone(),
                    },
                );
            },
            Value::Literal(value) => value,
        };
        let ghost before = ndc_arguments.map();
        let value = ndc_argument_value.clone();
        ndc_arguments.insert(ndc_argument_name.clone(), value);
        assert(json_map_view(ndc_arguments.map()) =~= json_map_view(before).insert(
            ndc_argument_name@,
            ndc_argument_value@,
        ));
    }
    assert(entries.take(n as int) =~= entries);
    Ok(ndc_arguments)
}

/// Once a prefix of the arguments fails, all of them fail with the same error.
pub proof fn lemma_arguments_error_extends(
    source: CommandSource,
    command: Qualified,
    arguments: Seq<(String, Value)>,
    k: int,
)
    requires
        0 <= k <= arguments.len(),
        spec_arguments(source, command, arguments.take(k)) is Err,
    ensures
        spec_arguments(source, command, arguments) == spec_arguments(source, command, arguments.take(k)),
    decreases arguments.len() - k,
{
    if k < arguments.len() {
        assert(arguments.take(k + 1).drop_last() =~= arguments.take(k));
        lemma_arguments_error_extends(source, command, arguments, k + 1);
    } else {
        assert(arguments.take(k) =~= arguments);
    }
}

/// The fields that a selection selects, in order, each under its alias.
pub open spec fn selection_entries(sel: CommandSelection) -> Seq<(String, ObjectSubSelection)> {
    match sel.selection {
        Some(s) => s@,
        None => Seq::empty(),
    }
}

/// Checks one selected field: it must be a plain field that the role may
/// select, with a field mapping and a type; gives its column and type.
pub open spec fn spec_field_entry(
    ctx: CommandContext,
    session: Session,
    sel: CommandSelection,
    output: CommandOutput,
    sub: ObjectSubSelection,
) -> Result<(String, QualifiedTypeReference), PlanningError> {
    match sub {
        ObjectSubSelection::Field(fs) => {
            let field = fs.target.field_name;
            if !names_view(ctx.4.allowed_fields@).contains(field@) {
                Err(
                    PlanningError::FieldNotPermitted {
                        role: session.role,
                        field,
                        object_type_name: output_type(output),
                        command: command_name(sel),
                    },
                )
            } else {
                match lookup(ctx.2@, field@) {
                    None => Err(
                        PlanningError::FieldMappingNotFound {
                            field,
                            object_type_name: output_type(output),
                            command: command_name(sel),
                        },
                    ),
                    Some(mapping) => match lookup(ctx.3.object_type.fields@, field@) {
                        None => Err(PlanningError::FieldTypeNotFound { field }),
                        Some(definition) => Ok((mapping.column, definition.field_type)),
                    },
                }
            }
        },
        _ => Err(PlanningError::UnsupportedSelection),
    }
}

/// The first error among the checks of the selected fields `entries`.
pub open spec fn first_field_error(
    ctx: CommandContext,
    session: Session,
    sel: CommandSelection,
    output: CommandOutput,
    entries: Seq<(String, ObjectSubSelection)>,
) -> Option<PlanningError>
    decreases entries.len(),
{
    if entries.len() == 0 {
        None
    } else {
        match first_field_error(ctx, session, sel, output, entries.drop_last()) {
            Some(e) => Some(e),
            None => match spec_field_entry(ctx, session, sel, output, entries.last().1) {
                Err(e) => Some(e),
                Ok(_) => None,
            },
        }
    }
}

/// Once a prefix of the selected fields fails a check, all of them fail it.
pub proof fn lemma_field_error_extends(
    ctx: CommandContext,
    session: Session,
    sel: CommandSelection,
    output: CommandOutput,
    entries: Seq<(String, ObjectSubSelection)>,
    k: int,
)
    requires
        0 <= k <= entries.len(),
        first_field_error(ctx, session, sel, output, entries.take(k)) is Some,
    ensures
        first_field_error(ctx, session, sel, output, entries) == first_field_error(
            ctx,
            session,
            sel,
            output,
            entries.take(k),
        ),
    decreases entries.len() - k,
{
    if k < entries.len() {
        assert(entries.take(k + 1).drop_last() =~= entries.take(k));
        lemma_field_error_extends(ctx, session, sel, output, entries, k + 1);
    } else {
        assert(entries.take(k) =~= entries);
    }
}

/// When every selected field passes its checks, no check fails.
pub proof fn lemma_no_field_error(
    ctx: CommandContext,
    session: Session,
    sel: CommandSelection,
    output: CommandOutput,
    entries: Seq<(String, ObjectSubSelection)>,
)
    requires
        forall|i: int|
            0 <= i < entries.len() ==> spec_field_entry(ctx, session, sel, output, #[trigger] entries[i].1)
                is Ok,
    ensures
        first_field_error(ctx, session, sel, output, entries) is None,
    decreases entries.len(),
{
    if entries.len() > 0 {
        let prefix = entries.drop_last();
        assert forall|i: int| 0 <= i < prefix.len() implies spec_field_entry(
            ctx,
            session,
            sel,
            output,
            #[trigger] prefix[i].1,
        ) is Ok by {
            assert(prefix[i] == entries[i]);
        }
        lemma_no_field_error(ctx, session, sel, output, prefix);
        assert(spec_field_entry(ctx, session, sel, output, entries[entries.len() - 1].1) is Ok);
    }
}

/// `res` is a possible result of the nested field selection for type `t`.
pub open spec fn nested_result<
    F: Fn(&Metadata, &QualifiedTypeReference, &Vec<(Qualified, TypeMapping)>) -> Result<
        Option<NestedField>,
        PlanningError,
    >,
>(
    f: F,
    metadata: Metadata,
    source: CommandSource,
    t: QualifiedTypeReference,
    res: Result<Option<NestedField>, PlanningError>,
) -> bool {
    call_ensures(f, (&metadata, &t, &source.type_mappings), res)
}

/// The nested field selection never fails for the command's source.
pub open spec fn nested_never_fails<
    F: Fn(&Metadata, &QualifiedTypeReference, &Vec<(Qualified, TypeMapping)>) -> Result<
        Option<NestedField>,
        PlanningError,
    >,
>(f: F, metadata: Metadata, source: CommandSource) -> bool {
    forall|t: QualifiedTypeReference, res: Result<Option<NestedField>, PlanningError>|
        #[trigger] nested_result(f, metadata, source, t, res) ==> res is Ok
}

/// `field` is what planning makes of the selected field `entry`: a column
/// under the same alias, with the mapped column, no arguments and a nested
/// selection that the nested field selection may give for the field's type.
pub open spec fn field_selected<
    F: Fn(&Metadata, &QualifiedTypeReference, &Vec<(Qualified, TypeMapping)>) -> Result<
        Option<NestedField>,
        PlanningError,
    >,
>(
    f: F,
    metadata: Metadata,
    ctx: CommandContext,
    session: Session,
    sel: CommandSelection,
    output: CommandOutput,
    entry: (String, ObjectSubSelection),
    field: (String, Field),
) -> bool {
    &&& field.0@ == entry.0@
    &&& match spec_field_entry(ctx, session, sel, output, entry.1) {
        Ok(checked) => match field.1 {
            Field::Column { column, fields, arguments } => {
                &&& column == checked.0
                &&& arguments.map() == Map::<Seq<char>, Argument>::empty()
                &&& nested_result(f, metadata, ctx.1, checked.1, Ok(fields))
            },
        },
        Err(_) => false,
    }
}

/// The selected field `entry` passes its checks, and the nested field
/// selection can succeed on its type.
pub open spec fn entry_passes<
    F: Fn(&Metadata, &QualifiedTypeReference, &Vec<(Qualified, TypeMapping)>) -> Result<
        Option<NestedField>,
        PlanningError,
    >,
>(
    f: F,
    metadata: Metadata,
    ctx: CommandContext,
    session: Session,
    sel: CommandSelection,
    output: CommandOutput,
    entry: (String, ObjectSubSelection),
) -> bool {
    match spec_field_entry(ctx, session, sel, output, entry.1) {
        Ok(checked) => exists|nested: Option<NestedField>|
            #[trigger] nested_result(f, metadata, ctx.1, checked.1, Ok(nested)),
        Err(_) => false,
    }
}

/// The selected field `entry` fails with `e`: a check fails, or else the
/// nested field selection can fail with `e` on its type.
pub open spec fn entry_fails_with<
    F: Fn(&Metadata, &QualifiedTypeReference, &Vec<(Qualified, TypeMapping)>) -> Result<
        Option<NestedField>,
        PlanningError,
    >,
>(
    f: F,
    metadata: Metadata,
    ctx: CommandContext,
    session: Session,
    sel: CommandSelection,
    output: CommandOutput,
    entry: (String, ObjectSubSelection),
    e: PlanningError,
) -> bool {
    match spec_field_entry(ctx, session, sel, output, entry.1) {
        Err(e2) => e2 == e,
        Ok(checked) => nested_result(f, metadata, ctx.1, checked.1, Err(e)),
    }
}

/// Plans the selected fields of a command, in order.
fn select_fields<
    F: Fn(&Metadata, &QualifiedTypeReference, &Vec<(Qualified, TypeMapping)>) -> Result<
        Option<NestedField>,
        PlanningError,
    >,
>(
    metadata: &Metadata,
    session: &Session,
    sel: &CommandSelection,
    output: &CommandOutput,
    ctx: (
        &CommandWithPermissions,
        &CommandSource,
        &Vec<(String, FieldMapping)>,
        &ObjectTypeWithRelationships,
        &TypeOutputPermission,
    ),
    nested: &F,
) -> (r: Result<Vec<(String, Field)>, PlanningError>)
    requires
        forall|m: &Metadata, t: &QualifiedTypeReference, tm: &Vec<(Qualified, TypeMapping)>|
            call_requires(*nested, (m, t, tm)),
    ensures
        r matches Ok(fields) ==> fields@.len() == selection_entries(*sel).len(),
        r matches Ok(fields) ==> forall|i: int|
            0 <= i < selection_entries(*sel).len() ==> field_selected(
                *nested,
                *metadata,
                (*ctx.0, *ctx.1, *ctx.2, *ctx.3, *ctx.4),
                *session,
                *sel,
                *output,
                selection_entries(*sel)[i],
                #[trigger] fields@[i],
            ),
        r matches Err(e) ==> exists|i: int|
            0 <= i < selection_entries(*sel).len() && (forall|j: int|
                0 <= j < i ==> entry_passes(
                    *nested,
                    *metadata,
                    (*ctx.0, *ctx.1, *ctx.2, *ctx.3, *ctx.4),
                    *session,
                    *sel,
                    *output,
                    #[trigger] selection_entries(*sel)[j],
                )) && entry_fails_with(
                *nested,
                *metadata,
                (*ctx.0, *ctx.1, *ctx.2, *ctx.3, *ctx.4),
                *session,
                *sel,
                *output,
                selection_entries(*sel)[i],
                e,
            ),
        nested_never_fails(*nested, *metadata, *ctx.1) ==> match first_field_error(
            (*ctx.0, *ctx.1, *ctx.2, *ctx.3, *ctx.4),
            *session,
            *sel,
            *output,
            selection_entries(*sel),
        ) {
            Some(e) => r == Err::<Vec<(String, Field)>, PlanningError>(e),
            None => r is Ok,
        },
{
    let ghost c: CommandContext = (*ctx.0, *ctx.1, *ctx.2, *ctx.3, *ctx.4);
    let ghost entries = selection_entries(*sel);
    let mut ndc_fields: Vec<(String, Field)> = Vec::new();
    let selection: &Vec<(String, ObjectSubSelection)> = match &sel.selection {
        Some(s) => s,
        None => {
            assert(entries.take(0) =~= entries);
            return Ok(ndc_fields);
        },
    };
    let n = selection.len();
    assert(entries.take(0) =~= Seq::<(String, ObjectSubSelection)>::empty());
    for i in 0..n
        invariant
            n == entries.len(),
            entries == selection@,
            entries == selection_entries(*sel),
            c == (*ctx.0, *ctx.1, *ctx.2, *ctx.3, *ctx.4),
            forall|m: &Metadata, t: &QualifiedTypeReference, tm: &Vec<(Qualified, TypeMapping)>|
                call_requires(*nested, (m, t, tm)),
            ndc_fields@.len() == i,
            forall|j: int|
                0 <= j < i ==> field_selected(
                    *nested,
                    *metadata,
                    c,
                    *session,
                    *sel,
                    *output,
                    entries[j],
                    #[trigger] ndc_fields@[j],
                ),
            first_field_error(c, *session, *sel, *output, entries.take(i as int)) is None,
    {
        assert(entries.take(i + 1).drop_last() =~= entries.take(i as int));
        assert(entries.take(i + 1).last() == entries[i as int]);
        assert forall|j: int| 0 <= j < i implies entry_passes(
            *nested,
            *metadata,
            c,
            *session,
            *sel,
            *output,
            #[trigger] entries[j],
        ) by {
            assert(field_selected(*nested, *metadata, c, *session, *sel, *output, entries[j], ndc_fields@[j]));
            if let Field::Column { column, fields, arguments } = ndc_fields@[j].1 {
                let checked = spec_field_entry(c, *session, *sel, *output, entries[j].1)->Ok_0;
                assert(nested_result(*nested, *metadata, c.1, checked.1, Ok(fields)));
            }
        }
        let alias = &selection[i].0;
        let field_selection = match &selection[i].1 {
            ObjectSubSelection::Field(fs) => fs,
            _ => {
                let e = PlanningError::UnsupportedSelection;
                proof {
                    lemma_field_error_extends(c, *session, *sel, *output, entries, i + 1);
                    assert(entry_fails_with(*nested, *metadata, c, *session, *sel, *output, entries[i as int], e));
                }
                return Err(e);
            },
        };
        let field_name = &field_selection.target.field_name;
        if !contains_name(&ctx.4.allowed_fields, field_name) {
            let e = PlanningError::FieldNotPermitted {
                role: session.role.clone(),
                field: field_name.clone(),
                object_type_name: output_type_name(output).clone(),
                command: Qualified::new(sel.target.subgraph.clone(), sel.target.command_name.clone()),
            };
            proof {
                lemma_field_error_extends(c, *session, *sel, *output, entries, i + 1);
                assert(entry_fails_with(*nested, *metadata, c, *session, *sel, *output, entries[i as int], e));
            }
            return Err(e);
        }
        let field_mapping = match find_by_name(ctx.2, field_name) {
            Some(m) => m,
            None => {
                let e = PlanningError::FieldMappingNotFound {
                    field: field_name.clone(),
                    object_type_name: output_type_name(output).clone(),
                    command: Qualified::new(sel.target.subgraph.clone(), sel.target.command_name.clone()),
                };
                proof {
                    lemma_field_error_extends(c, *session, *sel, *output, entries, i + 1);
                    assert(entry_fails_with(*nested, *metadata, c, *session, *sel, *output, entries[i as int], e));
                }
                return Err(e);
            },
        };
        let field_definition = match find_by_name(&ctx.3.object_type.fields, field_name) {
            Some(d) => d,
            None => {
                let e = PlanningError::FieldTypeNotFound { field: field_name.clone() };
                proof {
                    lemma_field_error_extends(c, *session, *sel, *output, entries, i + 1);
                    assert(entry_fails_with(*nested, *metadata, c, *session, *sel, *output, entries[i as int], e));
                }
                return Err(e);
            },
        };
        let fields = match nested(metadata, &field_definition.field_type, &ctx.1.type_mappings) {
            Ok(f) => f,
            Err(e) => {
                proof {
                    assert(nested_result(*nested, *metadata, c.1, field_definition.field_type, Err(e)));
                    assert(entry_fails_with(*nested, *metadata, c, *session, *sel, *output, entries[i as int], e));
                }
                return Err(e);
            },
        };
        let ndc_field = Field::Column {
            column: field_mapping.column.clone(),
            fields,
            arguments: SortedMap::new(),
        };
        ndc_fields.push((alias.clone(), ndc_field));
    }
    assert(entries.take(n as int) =~= entries);
    Ok(ndc_fields)
}

/// The physical plan node that calls an NDC function: what it sends to the
/// data connector, and how it reads the function's result.
#[derive(Debug)]
pub struct NDCFunctionPushDown {
    pub function_name: String,
    pub arguments: SortedMap<JsonValue>,
    pub fields: Vec<(String, Field)>,
    /// How the command's output is read back.
    pub output: CommandOutput,
    pub data_connector: DataConnectorLink,
}

/// The role may execute the command.
pub open spec fn command_permitted(cmd: CommandWithPermissions, role: String) -> bool {
    match lookup(cmd.permissions@, role@) {
        Some(permission) => permission.allow_execution,
        None => false,
    }
}

/// The metadata holds the command `command` with a permission entry for
/// `role` that allows execution.
pub open spec fn role_may_execute(metadata: Metadata, role: String, command: Qualified) -> bool {
    exists|j: int, i: int|
        #![trigger metadata.commands@[j], metadata.commands@[j].1.permissions@[i]]
        0 <= j < metadata.commands@.len() && 0 <= i < metadata.commands@[j].1.permissions@.len()
            && metadata.commands@[j].0@ == command@ && metadata.commands@[j].1.permissions@[i].0@
            == role@ && metadata.commands@[j].1.permissions@[i].1.allow_execution
}

/// A command is planned only for a role that the metadata lets execute it:
/// a role without a permission entry for the command, or whose entry does not
/// allow execution, gets no plan.
pub proof fn law_planning_needs_execute_permission<
    F: Fn(&Metadata, &QualifiedTypeReference, &Vec<(Qualified, TypeMapping)>) -> Result<
        Option<NestedField>,
        PlanningError,
    >,
>(
    f: F,
    metadata: Metadata,
    session: Session,
    sel: CommandSelection,
    output: CommandOutput,
    node: NDCFunctionPushDown,
)
    requires
        spec_resolve_command(metadata, session, sel, output) is Ok,
        node_planned(
            f,
            metadata,
            spec_resolve_command(metadata, session, sel, output)->Ok_0,
            session,
            sel,
            output,
            node,
        ),
    ensures
        role_may_execute(metadata, session.role, command_name(sel)),
{
    let c = spec_resolve_command(metadata, session, sel, output)->Ok_0;
    lemma_command_permitted(metadata, session, sel, c.0);
}

/// The command found for the selection, when it lets the role execute it,
/// gives [`role_may_execute`].
proof fn lemma_command_permitted(
    metadata: Metadata,
    session: Session,
    sel: CommandSelection,
    cmd: CommandWithPermissions,
)
    requires
        lookup(metadata.commands@, command_name(sel)@) == Some(cmd),
        command_permitted(cmd, session.role),
    ensures
        role_may_execute(metadata, session.role, command_name(sel)),
{
    lemma_lookup(metadata.commands@, command_name(sel)@);
    lemma_lookup(cmd.permissions@, session.role@);
    let j = choose|j: int|
        0 <= j < metadata.commands@.len() && (#[trigger] metadata.commands@[j]).0@ == command_name(sel)@
            && metadata.commands@[j].1 == cmd;
    let p = lookup(cmd.permissions@, session.role@)->Some_0;
    let i = choose|i: int|
        0 <= i < cmd.permissions@.len() && (#[trigger] cmd.permissions@[i]).0@ == session.role@
            && cmd.permissions@[i].1 == p;
    assert(metadata.commands@[j].1.permissions@[i].1.allow_execution);
}

/// The first error that planning meets after the selected fields: the
/// command permission, the arguments, then the kind of the command's source.
pub open spec fn post_field_error(
    ctx: CommandContext,
    session: Session,
    sel: CommandSelection,
) -> Option<PlanningError> {
    if !command_permitted(ctx.0, session.role) {
        Some(PlanningError::CommandNotPermitted { role: session.role, command: command_name(sel) })
    } else {
        match spec_arguments(ctx.1, command_name(sel), argument_entries(sel.target.arguments)) {
            Err(e) => Some(e),
            Ok(_) => match ctx.1.source {
                DataConnectorCommand::Function(_) => None,
                DataConnectorCommand::Procedure(_) => Some(PlanningError::NotAFunction),
            },
        }
    }
}

/// `node` is a plan of the selection: every selected field passed and was
/// planned as [`field_selected`] says, nested in the function's result
/// column; the role may execute the command; the arguments are the mapped
/// literal arguments; the function is the command's source function.
pub open spec fn node_planned<
    F: Fn(&Metadata, &QualifiedTypeReference, &Vec<(Qualified, TypeMapping)>) -> Result<
        Option<NestedField>,
        PlanningError,
    >,
>(
    f: F,
    metadata: Metadata,
    ctx: CommandContext,
    session: Session,
    sel: CommandSelection,
    output: CommandOutput,
    node: NDCFunctionPushDown,
) -> bool {
    let entries = selection_entries(sel);
    &&& exists|inner: Seq<(String, Field)>|
        {
            &&& inner.len() == entries.len()
            &&& forall|i: int|
                0 <= i < entries.len() ==> field_selected(
                    f,
                    metadata,
                    ctx,
                    session,
                    sel,
                    output,
                    entries[i],
                    #[trigger] inner[i],
                )
            &&& fields_view(node.fields@) == wrapped_fields_view(output, fields_view(inner))
        }
    &&& command_permitted(ctx.0, session.role)
    &&& spec_arguments(ctx.1, command_name(sel), argument_entries(sel.target.arguments)) == Ok::<
        Map<Seq<char>, JsonView>,
        PlanningError,
    >(json_map_view(node.arguments.map()))
    &&& ctx.1.source == DataConnectorCommand::Function(node.function_name)
    &&& node.output == output
    &&& node.data_connector == ctx.1.data_connector
}

/// Every selected field passes its checks, and the nested field selection can
/// succeed on its type.
pub open spec fn all_entries_pass<
    F: Fn(&Metadata, &QualifiedTypeReference, &Vec<(Qualified, TypeMapping)>) -> Result<
        Option<NestedField>,
        PlanningError,
    >,
>(
    f: F,
    metadata: Metadata,
    ctx: CommandContext,
    session: Session,
    sel: CommandSelection,
    output: CommandOutput,
) -> bool {
    forall|i: int|
        0 <= i < selection_entries(sel).len() ==> entry_passes(
            f,
            metadata,
            ctx,
            session,
            sel,
            output,
            #[trigger] selection_entries(sel)[i],
        )
}

/// Planning fails with `e` at a selected field: all fields before it pass, and
/// it fails with `e`.
pub open spec fn fails_at_field<
    F: Fn(&Metadata, &QualifiedTypeReference, &Vec<(Qualified, TypeMapping)>) -> Result<
        Option<NestedField>,
        PlanningError,
    >,
>(
    f: F,
    metadata: Metadata,
    ctx: CommandContext,
    session: Session,
    sel: CommandSelection,
    output: CommandOutput,
    e: PlanningError,
) -> bool {
    let entries = selection_entries(sel);
    exists|i: int|
        0 <= i < entries.len() && (forall|j: int|
            0 <= j < i ==> entry_passes(f, metadata, ctx, session, sel, output, #[trigger] entries[j]))
            && entry_fails_with(f, metadata, ctx, session, sel, output, entries[i], e)
}

/// Each selected field is planned once, under its own alias: the aliases of
/// a selection are distinct, and so are the aliases of the fields planned for
/// it, which come in the selection's order.
pub proof fn law_planned_aliases_follow_selection<
    F: Fn(&Metadata, &QualifiedTypeReference, &Vec<(Qualified, TypeMapping)>) -> Result<
        Option<NestedField>,
        PlanningError,
    >,
>(
    f: F,
    metadata: Metadata,
    ctx: CommandContext,
    session: Session,
    sel: CommandSelection,
    output: CommandOutput,
    planned: Seq<(String, Field)>,
)
    requires
        planned.len() == selection_entries(sel).len(),
        forall|i: int|
            0 <= i < planned.len() ==> field_selected(
                f,
                metadata,
                ctx,
                session,
                sel,
                output,
                selection_entries(sel)[i],
                #[trigger] planned[i],
            ),
        sel.wf(),
    ensures
        forall|i: int| 0 <= i < planned.len() ==> (#[trigger] planned[i]).0@ == selection_entries(sel)[i].0@,
        forall|i: int, j: int|
            0 <= i < j < planned.len() ==> (#[trigger] planned[i]).0@ != (#[trigger] planned[j]).0@,
{
    assert forall|i: int, j: int| 0 <= i < j < planned.len() implies (#[trigger] planned[i]).0@
        != (#[trigger] planned[j]).0@ by {
        assert(selection_entries(sel)[i] == sel.selection->Some_0@[i]);
        assert(selection_entries(sel)[j] == sel.selection->Some_0@[j]);
        assert(field_selected(f, metadata, ctx, session, sel, output, selection_entries(sel)[i], planned[i]));
        assert(field_selected(f, metadata, ctx, session, sel, output, selection_entries(sel)[j], planned[j]));
    }
}

impl NDCFunctionPushDown {
    /// Plans the call of the NDC function behind the command that
    /// `command_selection` targets, for `session`, reading the result as
    /// `output`. `ndc_nested_field_selection_for` gives the selection nested
    /// inside a field of the given type.
    pub fn try_new<
        F: Fn(&Metadata, &QualifiedTypeReference, &Vec<(Qualified, TypeMapping)>) -> Result<
            Option<NestedField>,
            PlanningError,
        >,
    >(
        metadata: &Metadata,
        session: &Session,
        command_selection: &CommandSelection,
        output: &CommandOutput,
        ndc_nested_field_selection_for: F,
    ) -> (r: Result<NDCFunctionPushDown, PlanningError>)
        requires
            forall|m: &Metadata, t: &QualifiedTypeReference, tm: &Vec<(Qualified, TypeMapping)>|
                call_requires(ndc_nested_field_selection_for, (m, t, tm)),
        ensures
            r is Ok ==> role_may_execute(*metadata, session.role, command_name(*command_selection)),
            spec_resolve_command(*metadata, *session, *command_selection, *output) matches Err(e)
                ==> r == Err::<NDCFunctionPushDown, PlanningError>(e),
            spec_resolve_command(*metadata, *session, *command_selection, *output) matches Ok(c)
                ==> {
                &&& r matches Ok(node) ==> node_planned(
                    ndc_nested_field_selection_for,
                    *metadata,
                    c,
                    *session,
                    *command_selection,
                    *output,
                    node,
                )
                &&& r matches Err(e) ==> fails_at_field(
                    ndc_nested_field_selection_for,
                    *metadata,
                    c,
                    *session,
                    *command_selection,
                    *output,
                    e,
                ) || (all_entries_pass(
                    ndc_nested_field_selection_for,
                    *metadata,
                    c,
                    *session,
                    *command_selection,
                    *output,
                ) && post_field_error(c, *session, *command_selection) == Some(e))
                &&& nested_never_fails(ndc_nested_field_selection_for, *metadata, c.1) ==> match first_field_error(
                    c,
                    *session,
                    *command_selection,
                    *output,
                    selection_entries(*command_selection),
                ) {
                    Some(e) => r == Err::<NDCFunctionPushDown, PlanningError>(e),
                    None => match post_field_error(c, *session, *command_selection) {
                        Some(e) => r == Err::<NDCFunctionPushDown, PlanningError>(e),
                        None => r is Ok,
                    },
                }
            },
    {
        let ctx = resolve_command(metadata, session, command_selection, output)?;
        let ghost c: CommandContext = (*ctx.0, *ctx.1, *ctx.2, *ctx.3, *ctx.4);
        let ndc_fields = select_fields(
            metadata,
            session,
            command_selection,
            output,
            ctx,
            &ndc_nested_field_selection_for,
        )?;
        proof {
            let entries = selection_entries(*command_selection);
            assert forall|i: int| 0 <= i < entries.len() implies spec_field_entry(
                c,
                *session,
                *command_selection,
                *output,
                #[trigger] entries[i].1,
            ) is Ok by {
                assert(field_selected(
                    ndc_nested_field_selection_for,
                    *metadata,
                    c,
                    *session,
                    *command_selection,
                    *output,
                    entries[i],
                    ndc_fields@[i],
                ));
            }
            lemma_no_field_error(c, *session, *command_selection, *output, entries);
            assert forall|i: int| 0 <= i < entries.len() implies entry_passes(
                ndc_nested_field_selection_for,
                *metadata,
                c,
                *session,
                *command_selection,
                *output,
                #[trigger] entries[i],
            ) by {
                assert(field_selected(
                    ndc_nested_field_selection_for,
                    *metadata,
                    c,
                    *session,
                    *command_selection,
                    *output,
                    entries[i],
                    ndc_fields@[i],
                ));
                if let Field::Column { column, fields, arguments } = ndc_fields@[i].1 {
                    let checked = spec_field_entry(c, *session, *command_selection, *output, entries[i].1)->Ok_0;
                    assert(nested_result(ndc_nested_field_selection_for, *metadata, c.1, checked.1, Ok(fields)));
                }
            }
        }
        let (command, command_source, _, _, _) = ctx;
        let permitted = match find_by_name(&command.permissions, &session.role) {
            Some(permission) => permission.allow_execution,
            None => false,
        };
        let qualified_command_name = Qualified::new(
            command_selection.target.subgraph.clone(),
            command_selection.target.command_name.clone(),
        );
        proof {
            if permitted {
                lemma_command_permitted(*metadata, *session, *command_selection, *command);
            }
        }
        if !permitted {
            return Err(
                PlanningError::CommandNotPermitted {
                    role: session.role.clone(),
                    command: qualified_command_name,
                },
            );
        }
        let ndc_arguments = resolve_arguments(
            command_source,
            &qualified_command_name,
            &command_selection.target.arguments,
        )?;
        let function_name = match &command_source.source {
            DataConnectorCommand::Function(function_name) => function_name,
            _ => {
                return Err(PlanningError::NotAFunction);
            },
        };
        let node = NDCFunctionPushDown {
            function_name: function_name.clone(),
            arguments: ndc_arguments,
            fields: wrap_ndc_fields(output, ndc_fields),
            output: output.clone(),
            data_connector: command_source.data_connector.clone(),
        };
        Ok(node)
    }
}

/// What a query fetches from a collection.
#[derive(Debug)]
pub struct ResolvedQueryNode {
    pub fields: Option<Vec<(String, Field)>>,
    /// Optionally limit to N results
    pub limit: Option<u32>,
    /// Optionally offset from the Nth result
    pub offset: Option<u32>,
}

/// A query to send to a data connector.
#[derive(Debug)]
pub struct ResolvedQueryExecutionPlan {
    pub query_node: ResolvedQueryNode,
    /// The name of a collection
    pub collection: String,
    /// Values to be provided to any collection arguments
    pub arguments: SortedMap<Argument>,
    /// One set of named variables for each rowset to fetch.
    pub variables: Option<Vec<SortedMap<JsonValue>>>,
    /// The data connector used to fetch the data
    pub data_connector: DataConnectorLink,
}

/// The arguments of a function call: each value as a literal argument.
pub open spec fn literal_arguments_view(m: Map<Seq<char>, JsonView>) -> Map<Seq<char>, ArgumentView> {
    m.map_values(|v: JsonView| ArgumentView::Literal { value: v })
}

/// Each argument of a function call goes to the data connector unchanged:
/// under the same name, as a literal that carries the very same JSON value,
/// and no argument is added or dropped.
pub proof fn law_literal_arguments_keep_values(m: Map<Seq<char>, JsonView>)
    ensures
        literal_arguments_view(m).dom() == m.dom(),
        forall|k: Seq<char>| #[trigger] m.contains_key(k) ==> literal_arguments_view(m)[k] == (ArgumentView::Literal {
            value: m[k],
        }),
{
    assert(literal_arguments_view(m).dom() =~= m.dom());
}

/// A copy of a list of fields.
pub fn clone_fields(fields: &Vec<(String, Field)>) -> (r: Vec<(String, Field)>)
    ensures
        fields_view(r@) == fields_view(fields@),
{
    let mut out: Vec<(String, Field)> = Vec::new();
    let n = fields.len();
    for i in 0..n
        invariant
            n == fields@.len(),
            out@.len() == i,
            forall|j: int| 0 <= j < i ==> (#[trigger] out@[j]).0@ == fields@[j].0@ && out@[j].1@ == fields@[j].1@,
    {
        out.push((fields[i].0.clone(), fields[i].1.clone()));
    }
    assert(fields_view(out@) =~= fields_view(fields@));
    out
}

impl NDCFunctionPushDown {
    /// The query that calls the function: its fields, its arguments as
    /// literals, the function as the collection, and nothing else.
    pub fn query_execution_plan(&self) -> (r: ResolvedQueryExecutionPlan)
        ensures
            r.query_node.fields matches Some(fs) && fields_view(fs@) == fields_view(self.fields@),
            r.query_node.limit is None,
            r.query_node.offset is None,
            r.collection@ == self.function_name@,
            arguments_view(r.arguments.map()) == literal_arguments_view(json_map_view(self.arguments.map())),
            forall|k: Seq<char>| #[trigger] r.arguments.map().contains_key(k) <==> self.arguments.map().contains_key(k),
            forall|k: Seq<char>| #[trigger] self.arguments.map().contains_key(k) ==> r.arguments.map()[k]@ == (ArgumentView::Literal {
                value: self.arguments.map()[k]@,
            }),
            r.variables is None,
            r.data_connector == self.data_connector,
    {
        let arguments = self.arguments.map_values(|v: &JsonValue| -> (a: Argument)
            ensures
                a@ == (ArgumentView::Literal { value: v@ }),
            { Argument::Literal { value: v.clone() } });
        proof {
            lemma_pairs_map_pointwise(self.arguments.pairs(), arguments.pairs());
            assert(arguments_view(arguments.map()) =~= literal_arguments_view(
                json_map_view(self.arguments.map()),
            ));
        }
        ResolvedQueryExecutionPlan {
            query_node: ResolvedQueryNode {
                fields: Some(clone_fields(&self.fields)),
                limit: None,
                offset: None,
            },
            collection: self.function_name.clone(),
            arguments,
            variables: None,
            data_connector: self.data_connector.clone(),
        }
    }
}

} // verus!
