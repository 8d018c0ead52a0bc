use ndc_pushdown::field::{Field, NestedField, FUNCTION_IR_VALUE_COLUMN_NAME};
use ndc_pushdown::json::JsonValue;
use ndc_pushdown::metadata::{
    Command, CommandPermission, CommandSelection, CommandSource, CommandTarget,
    CommandWithPermissions, DataConnectorCommand, DataConnectorLink, FieldDefinition, FieldMapping,
    InbuiltType, Metadata, ObjectFieldSelection, ObjectFieldTarget, ObjectSubSelection,
    ObjectTypeRepresentation, ObjectTypeWithRelationships, QualifiedBaseType, QualifiedTypeName,
    QualifiedTypeReference, Session, TypeMapping, TypeOutputPermission, Value,
};
use ndc_pushdown::names::Qualified;
use ndc_pushdown::pushdown::{
    wrap_ndc_fields, CommandOutput, ErrorKind, NDCFunctionPushDown, PlanningError,
};
use ndc_pushdown::sorted_map::SortedMap;

fn q(subgraph: &str, name: &str) -> Qualified {
    Qualified::new(subgraph.to_string(), name.to_string())
}

fn string_type() -> QualifiedTypeReference {
    QualifiedTypeReference {
        underlying_type: QualifiedBaseType::Named(QualifiedTypeName::Inbuilt(InbuiltType::String)),
        nullable: false,
    }
}

fn list_type() -> QualifiedTypeReference {
    QualifiedTypeReference {
        underlying_type: QualifiedBaseType::List(Box::new(string_type())),
        nullable: true,
    }
}

fn source(function: DataConnectorCommand) -> CommandSource {
    CommandSource {
        data_connector: DataConnectorLink { name: q("app", "custom"), url: "http://localhost:8101".to_string() },
        source: function,
        type_mappings: vec![(
            q("app", "Actor"),
            TypeMapping::Object {
                field_mappings: vec![
                    ("id".to_string(), FieldMapping { column: "actor_id".to_string() }),
                    ("name".to_string(), FieldMapping { column: "actor_name".to_string() }),
                    ("aliases".to_string(), FieldMapping { column: "aliases".to_string() }),
                ],
            },
        )],
        argument_mappings: vec![
            ("movieId".to_string(), "movie_id".to_string()),
            ("limit".to_string(), "max".to_string()),
        ],
    }
}

fn metadata_with(function: DataConnectorCommand, allow_execution: bool) -> Metadata {
    Metadata {
        commands: vec![(
            q("app", "ActorsByMovie"),
            CommandWithPermissions {
                command: Command { source: Some(source(function)) },
                permissions: vec![("user".to_string(), CommandPermission { allow_execution })],
            },
        )],
        object_types: vec![(
            q("app", "Actor"),
            ObjectTypeWithRelationships {
                object_type: ObjectTypeRepresentation {
                    fields: vec![
                        ("id".to_string(), FieldDefinition { field_type: string_type() }),
                        ("name".to_string(), FieldDefinition { field_type: string_type() }),
                        ("aliases".to_string(), FieldDefinition { field_type: list_type() }),
                    ],
                },
                type_output_permissions: vec![(
                    "user".to_string(),
                    TypeOutputPermission { allowed_fields: vec!["id".to_string(), "name".to_string()] },
                )],
            },
        )],
    }
}

fn metadata() -> Metadata {
    metadata_with(DataConnectorCommand::Function("actors_by_movie".to_string()), true)
}

fn field(name: &str) -> ObjectSubSelection {
    ObjectSubSelection::Field(ObjectFieldSelection {
        target: ObjectFieldTarget { field_name: name.to_string() },
        selection: None,
    })
}

fn selection(fields: Vec<(&str, ObjectSubSelection)>, arguments: Vec<(&str, Value)>) -> CommandSelection {
    CommandSelection {
        target: CommandTarget {
            subgraph: "app".to_string(),
            command_name: "ActorsByMovie".to_string(),
            arguments: arguments.into_iter().map(|(k, v)| (k.to_string(), v)).collect(),
        },
        selection: Some(fields.into_iter().map(|(k, v)| (k.to_string(), v)).collect()),
    }
}

fn user() -> Session {
    Session { role: "user".to_string() }
}

fn no_nesting(
    _: &Metadata,
    _: &QualifiedTypeReference,
    _: &Vec<(Qualified, TypeMapping)>,
) -> Result<Option<NestedField>, PlanningError> {
    Ok(None)
}

fn list_output() -> CommandOutput {
    CommandOutput::ListOfObjects(q("app", "Actor"))
}

fn plan(
    metadata: &Metadata,
    session: &Session,
    sel: &CommandSelection,
    output: &CommandOutput,
) -> Result<NDCFunctionPushDown, PlanningError> {
    NDCFunctionPushDown::try_new(metadata, session, sel, output, no_nesting)
}

fn inner_fields(node: &NDCFunctionPushDown) -> (&Vec<(String, Field)>, bool) {
    assert_eq!(node.fields.len(), 1);
    assert_eq!(node.fields[0].0, FUNCTION_IR_VALUE_COLUMN_NAME);
    let Field::Column { column, fields, arguments } = &node.fields[0].1;
    assert_eq!(column, "__value");
    assert_eq!(arguments.len(), 0);
    match fields {
        Some(NestedField::Object(o)) => (&o.fields, false),
        Some(NestedField::Array(a)) => match &*a.fields {
            NestedField::Object(o) => (&o.fields, true),
            NestedField::Array(_) => panic!("array of arrays"),
        },
        None => panic!("no nested fields"),
    }
}

#[test]
fn plans_a_function_call_with_fields_and_arguments() {
    let sel = selection(
        vec![("actorName", field("name")), ("actorId", field("id"))],
        vec![
            ("movieId", Value::Literal(JsonValue::Number("1".to_string()))),
            ("limit", Value::Literal(JsonValue::Number("10".to_string()))),
        ],
    );
    let node = plan(&metadata(), &user(), &sel, &list_output()).unwrap();
    assert_eq!(node.function_name, "actors_by_movie");
    assert_eq!(node.data_connector.name.name, "custom");
    let (fields, in_array) = inner_fields(&node);
    assert!(in_array);
    let aliases: Vec<&str> = fields.iter().map(|(k, _)| k.as_str()).collect();
    assert_eq!(aliases, vec!["actorName", "actorId"]);
    let Field::Column { column, fields: nested, arguments } = &fields[0].1;
    assert_eq!(column, "actor_name");
    assert!(nested.is_none());
    assert_eq!(arguments.len(), 0);
    let Field::Column { column, .. } = &fields[1].1;
    assert_eq!(column, "actor_id");
    // arguments are keyed by the data connector's names, in key order
    let keys: Vec<&str> = node.arguments.entries().iter().map(|(k, _)| k.as_str()).collect();
    assert_eq!(keys, vec!["max", "movie_id"]);
    assert!(matches!(&node.arguments.entries()[1].1, JsonValue::Number(n) if n == "1"));
}

#[test]
fn object_output_nests_fields_directly() {
    let sel = selection(vec![("id", field("id"))], vec![]);
    let output = CommandOutput::Object(q("app", "Actor"));
    let node = plan(&metadata(), &user(), &sel, &output).unwrap();
    let (fields, in_array) = inner_fields(&node);
    assert!(!in_array);
    assert_eq!(fields.len(), 1);
    assert!(matches!(node.output, CommandOutput::Object(_)));
}

#[test]
fn nested_selection_is_asked_for_the_field_type() {
    let sel = selection(vec![("id", field("id"))], vec![]);
    let nested = |_: &Metadata, t: &QualifiedTypeReference, mappings: &Vec<(Qualified, TypeMapping)>| {
        assert_eq!(mappings.len(), 1);
        assert!(!t.nullable);
        Ok(Some(NestedField::Object(ndc_pushdown::field::NestedObject { fields: vec![] })))
    };
    let node = NDCFunctionPushDown::try_new(&metadata(), &user(), &sel, &list_output(), nested).unwrap();
    let (fields, _) = inner_fields(&node);
    let Field::Column { fields: nested_fields, .. } = &fields[0].1;
    assert!(matches!(nested_fields, Some(NestedField::Object(o)) if o.fields.is_empty()));
}

#[test]
fn nested_selection_error_is_returned() {
    let sel = selection(vec![("id", field("id"))], vec![]);
    let failing = |_: &Metadata, _: &QualifiedTypeReference, _: &Vec<(Qualified, TypeMapping)>| {
        Err(PlanningError::Internal("no such type".to_string()))
    };
    let err = NDCFunctionPushDown::try_new(&metadata(), &user(), &sel, &list_output(), failing).unwrap_err();
    assert!(matches!(err, PlanningError::Internal(m) if m == "no such type"));
}

#[test]
fn missing_command_is_an_internal_error() {
    let mut sel = selection(vec![], vec![]);
    sel.target.command_name = "Other".to_string();
    let err = plan(&metadata(), &user(), &sel, &list_output()).unwrap_err();
    assert!(matches!(&err, PlanningError::CommandNotFound { command } if command.name == "Other"));
    assert!(matches!(err.kind(), ErrorKind::Internal));
}

#[test]
fn command_without_source_is_an_error() {
    let mut m = metadata();
    m.commands[0].1.command.source = None;
    let err = plan(&m, &user(), &selection(vec![], vec![]), &list_output()).unwrap_err();
    assert!(matches!(err, PlanningError::CommandHasNoSource { .. }));
}

#[test]
fn missing_type_mapping_is_an_error() {
    let output = CommandOutput::Object(q("app", "Movie"));
    let err = plan(&metadata(), &user(), &selection(vec![], vec![]), &output).unwrap_err();
    assert!(matches!(&err, PlanningError::TypeMappingNotFound { object_type_name, .. } if object_type_name.name == "Movie"));
}

#[test]
fn missing_object_type_is_an_error() {
    let mut m = metadata();
    m.object_types.clear();
    let err = plan(&m, &user(), &selection(vec![], vec![]), &list_output()).unwrap_err();
    assert!(matches!(err, PlanningError::ObjectTypeNotFound { .. }));
}

#[test]
fn role_without_output_permission_is_a_plan_error() {
    let guest = Session { role: "guest".to_string() };
    let err = plan(&metadata(), &guest, &selection(vec![], vec![]), &list_output()).unwrap_err();
    assert!(matches!(&err, PlanningError::NoSelectPermission { role, .. } if role == "guest"));
    assert!(matches!(err.kind(), ErrorKind::Plan));
}

#[test]
fn relationship_selection_is_unsupported() {
    let sel = selection(vec![("id", field("id")), ("movies", ObjectSubSelection::Relationship)], vec![]);
    let err = plan(&metadata(), &user(), &sel, &list_output()).unwrap_err();
    assert!(matches!(err, PlanningError::UnsupportedSelection));
}

#[test]
fn field_outside_permissions_is_a_plan_error() {
    let sel = selection(vec![("aliases", field("aliases"))], vec![]);
    let err = plan(&metadata(), &user(), &sel, &list_output()).unwrap_err();
    assert!(matches!(&err, PlanningError::FieldNotPermitted { field, .. } if field == "aliases"));
    assert!(matches!(err.kind(), ErrorKind::Plan));
}

#[test]
fn field_without_mapping_is_an_error() {
    let mut m = metadata();
    m.object_types[0].1.type_output_permissions[0].1.allowed_fields.push("age".to_string());
    let sel = selection(vec![("age", field("age"))], vec![]);
    let err = plan(&m, &user(), &sel, &list_output()).unwrap_err();
    assert!(matches!(&err, PlanningError::FieldMappingNotFound { field, .. } if field == "age"));
}

#[test]
fn field_without_type_is_an_error() {
    let mut m = metadata();
    m.object_types[0].1.object_type.fields.remove(1);
    let sel = selection(vec![("name", field("name"))], vec![]);
    let err = plan(&m, &user(), &sel, &list_output()).unwrap_err();
    assert!(matches!(&err, PlanningError::FieldTypeNotFound { field } if field == "name"));
}

#[test]
fn first_failing_field_decides_the_error() {
    let sel = selection(
        vec![("id", field("id")), ("aliases", field("aliases")), ("rel", ObjectSubSelection::Relationship)],
        vec![],
    );
    let err = plan(&metadata(), &user(), &sel, &list_output()).unwrap_err();
    assert!(matches!(err, PlanningError::FieldNotPermitted { .. }));
}

#[test]
fn command_not_executable_by_role_is_a_plan_error() {
    let m = metadata_with(DataConnectorCommand::Function("actors_by_movie".to_string()), false);
    let err = plan(&m, &user(), &selection(vec![("id", field("id"))], vec![]), &list_output()).unwrap_err();
    assert!(matches!(&err, PlanningError::CommandNotPermitted { role, .. } if role == "user"));
    assert!(matches!(err.kind(), ErrorKind::Plan));
}

#[test]
fn unmapped_argument_is_an_error() {
    let sel = selection(vec![], vec![("genre", Value::Literal(JsonValue::Null))]);
    let err = plan(&metadata(), &user(), &sel, &list_output()).unwrap_err();
    assert!(matches!(&err, PlanningError::ArgumentMappingNotFound { argument, .. } if argument == "genre"));
}

#[test]
fn boolean_expression_argument_is_an_error() {
    let sel = selection(vec![], vec![("movieId", Value::BooleanExpression)]);
    let err = plan(&metadata(), &user(), &sel, &list_output()).unwrap_err();
    assert!(matches!(&err, PlanningError::BooleanExpressionArgument { argument, .. } if argument == "movieId"));
}

#[test]
fn procedure_is_not_a_function() {
    let m = metadata_with(DataConnectorCommand::Procedure("add_actor".to_string()), true);
    let err = plan(&m, &user(), &selection(vec![], vec![]), &list_output()).unwrap_err();
    assert!(matches!(err, PlanningError::NotAFunction));
}

#[test]
fn later_argument_replaces_earlier_under_same_name() {
    let mut m = metadata();
    if let Some(source) = &mut m.commands[0].1.command.source {
        source.argument_mappings.push(("movie".to_string(), "movie_id".to_string()));
    }
    let sel = selection(
        vec![],
        vec![
            ("movieId", Value::Literal(JsonValue::Number("1".to_string()))),
            ("movie", Value::Literal(JsonValue::Number("2".to_string()))),
        ],
    );
    let node = plan(&m, &user(), &sel, &list_output()).unwrap();
    assert_eq!(node.arguments.len(), 1);
    assert!(matches!(&node.arguments.entries()[0].1, JsonValue::Number(n) if n == "2"));
}

#[test]
fn wraps_fields_for_a_list() {
    let inner = vec![(
        "a".to_string(),
        Field::Column { column: "col_a".to_string(), fields: None, arguments: SortedMap::new() },
    )];
    let wrapped = wrap_ndc_fields(&list_output(), inner);
    assert_eq!(wrapped.len(), 1);
    assert_eq!(wrapped[0].0, "__value");
    let Field::Column { column, fields, .. } = &wrapped[0].1;
    assert_eq!(column, "__value");
    match fields {
        Some(NestedField::Array(a)) => match &*a.fields {
            NestedField::Object(o) => assert_eq!(o.fields[0].0, "a"),
            _ => panic!("expected an object"),
        },
        _ => panic!("expected an array"),
    }
}

#[test]
fn wraps_fields_for_an_object() {
    let wrapped = wrap_ndc_fields(&CommandOutput::Object(q("app", "Actor")), vec![]);
    let Field::Column { fields, .. } = &wrapped[0].1;
    assert!(matches!(fields, Some(NestedField::Object(o)) if o.fields.is_empty()));
}

#[test]
fn query_plan_calls_the_function_with_literal_arguments() {
    let sel = selection(
        vec![("actorId", field("id"))],
        vec![("movieId", Value::Literal(JsonValue::String("m1".to_string())))],
    );
    let node = plan(&metadata(), &user(), &sel, &list_output()).unwrap();
    let query = node.query_execution_plan();
    assert_eq!(query.collection, "actors_by_movie");
    assert!(query.query_node.limit.is_none());
    assert!(query.query_node.offset.is_none());
    assert!(query.variables.is_none());
    assert_eq!(query.data_connector.url, "http://localhost:8101");
    let fields = query.query_node.fields.unwrap();
    assert_eq!(fields.len(), 1);
    assert_eq!(fields[0].0, "__value");
    assert_eq!(query.arguments.len(), 1);
    let (name, argument) = &query.arguments.entries()[0];
    assert_eq!(name, "movie_id");
    let ndc_pushdown::field::Argument::Literal { value } = argument;
    assert!(matches!(value, JsonValue::String(s) if s == "m1"));
}

#[test]
fn planning_errors_have_messages() {
    let mut sel = selection(vec![], vec![]);
    sel.target.command_name = "Other".to_string();
    let err = plan(&metadata(), &user(), &sel, &list_output()).unwrap_err();
    assert_eq!(err.message(), "command Other (in subgraph app) not found in metadata");
    let sel = selection(vec![("aliases", field("aliases"))], vec![]);
    let err = plan(&metadata(), &user(), &sel, &list_output()).unwrap_err();
    assert_eq!(
        err.message(),
        "role user does not have permission to select the field aliases from type Actor (in subgraph app) of command ActorsByMovie (in subgraph app)"
    );
    let sel = selection(vec![], vec![("movieId", Value::BooleanExpression)]);
    let err = plan(&metadata(), &user(), &sel, &list_output()).unwrap_err();
    assert_eq!(
        err.message(),
        "unexpected boolean expression as value for argument movieId of command ActorsByMovie (in subgraph app)"
    );
    assert_eq!(PlanningError::NotAFunction.message(), "only ndc functions are allowed to be executed");
    assert_eq!(PlanningError::FieldTypeNotFound { field: "x".to_string() }.message(), "could not look up type of field x");
    assert_eq!(PlanningError::Internal("boom".to_string()).message(), "boom");
}

#[test]
fn nested_selection_error_wins_over_later_errors() {
    // the command is not executable by the role and the argument is unmapped,
    // but the nested selection of the field fails first
    let m = metadata_with(DataConnectorCommand::Procedure("p".to_string()), false);
    let sel = selection(vec![("id", field("id"))], vec![("genre", Value::Literal(JsonValue::Null))]);
    let failing = |_: &Metadata, _: &QualifiedTypeReference, _: &Vec<(Qualified, TypeMapping)>| {
        Err(PlanningError::Internal("nested".to_string()))
    };
    let err = NDCFunctionPushDown::try_new(&m, &user(), &sel, &list_output(), failing).unwrap_err();
    assert!(matches!(err, PlanningError::Internal(m) if m == "nested"));
}
