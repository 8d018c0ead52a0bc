//! The parts of resolved metadata, of a session and of a command selection
//! that planning an NDC function call reads.

use vstd::prelude::*;

use crate::json::JsonValue;
use crate::names::{names_distinct, names_view, Qualified};

verus! {

/// A link to a data connector.
#[derive(Debug)]
pub struct DataConnectorLink {
    pub name: Qualified,
    pub url: String,
}

impl Clone for DataConnectorLink {
    fn clone(&self) -> (r: Self)
        ensures
            r == *self,
    {
        DataConnectorLink { name: self.name.clone(), url: self.url.clone() }
    }
}

/// The built-in scalar types of OpenDD.
#[derive(Debug)]
pub enum InbuiltType {
    ID,
    Int,
    Float,
    Boolean,
    String,
}

#[derive(Debug)]
pub enum QualifiedTypeName {
    Inbuilt(InbuiltType),
    Custom(Qualified),
}

#[derive(Debug)]
pub enum QualifiedBaseType {
    Named(QualifiedTypeName),
    List(Box<QualifiedTypeReference>),
}

/// The type of a field of an object type.
#[derive(Debug)]
pub struct QualifiedTypeReference {
    pub underlying_type: QualifiedBaseType,
    pub nullable: bool,
}

/// Where a field of an object type lives in the data connector.
#[derive(Debug)]
pub struct FieldMapping {
    pub column: String,
}

/// How an object type maps onto the data connector's schema.
#[derive(Debug)]
pub enum TypeMapping {
    Object { field_mappings: Vec<(String, FieldMapping)> },
}

/// What a command runs in its data connector.
#[derive(Debug)]
pub enum DataConnectorCommand {
    Function(String),
    Procedure(String),
}

/// The data connector source of a command.
#[derive(Debug)]
pub struct CommandSource {
    pub data_connector: DataConnectorLink,
    pub source: DataConnectorCommand,
    pub type_mappings: Vec<(Qualified, TypeMapping)>,
    /// From the command's argument names to the data connector's.
    pub argument_mappings: Vec<(String, String)>,
}

#[derive(Debug)]
pub struct Command {
    pub source: Option<CommandSource>,
}

#[derive(Debug)]
pub struct CommandPermission {
    pub allow_execution: bool,
}

/// A command with its permissions by role.
#[derive(Debug)]
pub struct CommandWithPermissions {
    pub command: Command,
    pub permissions: Vec<(String, CommandPermission)>,
}

/// The fields of an object type that a role may select.
#[derive(Debug)]
pub struct TypeOutputPermission {
    pub allowed_fields: Vec<String>,
}

#[derive(Debug)]
pub struct FieldDefinition {
    pub field_type: QualifiedTypeReference,
}

#[derive(Debug)]
pub struct ObjectTypeRepresentation {
    pub fields: Vec<(String, FieldDefinition)>,
}

/// An object type with its output permissions by role.
#[derive(Debug)]
pub struct ObjectTypeWithRelationships {
    pub object_type: ObjectTypeRepresentation,
    pub type_output_permissions: Vec<(String, TypeOutputPermission)>,
}

/// Resolved metadata: commands and object types by qualified name, each
/// collection a list of entries with distinct names (see [`Metadata::wf`]).
#[derive(Debug)]
pub struct Metadata {
    pub commands: Vec<(Qualified, CommandWithPermissions)>,
    pub object_types: Vec<(Qualified, ObjectTypeWithRelationships)>,
}

/// The session a request runs in.
#[derive(Debug)]
pub struct Session {
    pub role: String,
}

/// The value of an argument in a query.
#[derive(Debug)]
pub enum Value {
    Literal(JsonValue),
    BooleanExpression,
}

#[derive(Debug)]
pub struct CommandTarget {
    pub subgraph: String,
    pub command_name: String,
    pub arguments: indexmap::IndexMap<String, Value>,
}

/// The arguments of a query, in the map's order.
pub uninterp spec fn argument_entries(m: indexmap::IndexMap<String, Value>) -> Seq<(String, Value)>;

/// The number of arguments of a query.
///
/// Calls `indexmap::IndexMap::len`. The contract claims what its source
/// shows: the number of entries.
#[verifier::external_body]
pub(crate) fn argument_count(m: &indexmap::IndexMap<String, Value>) -> (n: usize)
    ensures
        n == argument_entries(*m).len(),
{
    m.len()
}

/// An argument of a query: its name and its value.
pub type ArgumentRef<'a> = (&'a String, &'a Value);

/// The argument at position `i` of a query.
///
/// Calls `indexmap::IndexMap::get_index`. The contract claims what its
/// source shows: the entry at that position, or `None` past the end.
#[verifier::external_body]
pub(crate) fn argument_at<'a>(m: &'a indexmap::IndexMap<String, Value>, i: usize) -> (r: Option<ArgumentRef<'a>>)
    ensures
        match r {
            Some(p) => i < argument_entries(*m).len() && *p.0 == argument_entries(*m)[i as int].0
                && *p.1 == argument_entries(*m)[i as int].1,
            None => i >= argument_entries(*m).len(),
        },
{
    m.get_index(i)
}

#[derive(Debug)]
pub struct ObjectFieldTarget {
    pub field_name: String,
}

#[derive(Debug)]
pub struct ObjectFieldSelection {
    pub target: ObjectFieldTarget,
    pub selection: Option<Vec<(String, ObjectSubSelection)>>,
}

/// What a query selects from an object.
#[derive(Debug)]
pub enum ObjectSubSelection {
    Field(ObjectFieldSelection),
    Relationship,
    RelationshipAggregate,
}

/// A query of a command, with the fields selected from its output, in
/// order, under distinct aliases (see [`CommandSelection::wf`]); a list of
/// entries, since a declared `indexmap::IndexMap` cannot hold the selection
/// type that contains it.
#[derive(Debug)]
pub struct CommandSelection {
    pub target: CommandTarget,
    pub selection: Option<Vec<(String, ObjectSubSelection)>>,
}

impl CommandSource {
    /// Its type mappings and argument mappings are maps: no name twice, and
    /// no field twice in a type mapping.
    pub open spec fn wf(self) -> bool {
        &&& names_distinct(self.type_mappings@)
        &&& names_distinct(self.argument_mappings@)
        &&& forall|i: int|
            0 <= i < self.type_mappings@.len() ==> match #[trigger] self.type_mappings@[i].1 {
                TypeMapping::Object { field_mappings } => names_distinct(field_mappings@),
            }
    }
}

impl Metadata {
    /// Every collection of the metadata is a map or a set: no name twice.
    pub open spec fn wf(self) -> bool {
        &&& names_distinct(self.commands@)
        &&& names_distinct(self.object_types@)
        &&& forall|i: int|
            0 <= i < self.commands@.len() ==> {
                let c = #[trigger] self.commands@[i].1;
                &&& names_distinct(c.permissions@)
                &&& c.command.source matches Some(source) ==> source.wf()
            }
        &&& forall|i: int|
            0 <= i < self.object_types@.len() ==> {
                let o = #[trigger] self.object_types@[i].1;
                &&& names_distinct(o.object_type.fields@)
                &&& names_distinct(o.type_output_permissions@)
                &&& forall|j: int|
                    0 <= j < o.type_output_permissions@.len() ==> names_view(
                        (#[trigger] o.type_output_permissions@[j]).1.allowed_fields@,
                    ).no_duplicates()
            }
    }
}

impl CommandSelection {
    /// The selection is a map: no alias twice.
    pub open spec fn wf(self) -> bool {
        &&& self.selection matches Some(s) ==> names_distinct(s@)
    }
}

} // verus!
