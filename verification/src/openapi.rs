//! The parts of an OpenAPI 3 document that the generator fills in. Maps of
//! the document are written as vectors of key-value pairs in order.
use vstd::prelude::*;

use crate::ast::{IntegerFormat, NumberFormat};

verus! {

/// One OpenAPI document: the version of the OpenAPI specification it
/// follows, its paths by URL and its component schemas by name.
#[derive(Debug)]
pub struct OpenApi {
    pub openapi: String,
    pub paths: Vec<(String, PathItem)>,
    pub schemas: Vec<(String, SchemaOrReference)>,
}

/// The operations of one path; only the `GET` operation is filled in.
#[derive(Debug)]
pub struct PathItem {
    pub get: Option<Operation>,
}

#[derive(Debug)]
pub struct Operation {
    pub operation_id: String,
    pub parameters: Vec<ApiParameter>,
    pub responses: Vec<(u16, Response)>,
}

/// A response: its bodies by media type.
#[derive(Debug)]
pub struct Response {
    pub content: Vec<(String, SchemaOrReference)>,
}

/// A parameter in the query (not required) or in the path (required).
#[derive(Debug)]
pub enum ApiParameter {
    Query { name: String, schema: SchemaOrReference },
    Path { name: String, schema: SchemaOrReference },
}

/// A schema given in place, or a reference (such as `#/components/schemas/Name`).
#[derive(Debug)]
pub enum SchemaOrReference {
    Reference(String),
    Item(SchemaObject),
}

/// The string formats that OpenAPI names.
#[derive(Debug, Clone, Copy, PartialEq, Eq, Structural)]
pub enum StringFormatName {
    Date,
    DateTime,
    Password,
    Byte,
    Binary,
}

/// A schema object. Numeric bounds are the written integers.
#[derive(Debug)]
#[allow(inconsistent_fields)]
pub enum SchemaObject {
    String { format: Option<StringFormatName>, max_length: Option<usize> },
    Number { format: Option<NumberFormat>, maximum: Option<usize> },
    Integer { format: Option<IntegerFormat>, maximum: Option<usize> },
    Boolean,
    Object { properties: Vec<(String, SchemaObject)>, required: Vec<String> },
    Array { items: String },
}

// Views: strings as character sequences, vectors as sequences.

#[allow(inconsistent_fields)]
pub enum SchemaObjectV {
    String { format: Option<StringFormatName>, max_length: Option<usize> },
    Number { format: Option<NumberFormat>, maximum: Option<usize> },
    Integer { format: Option<IntegerFormat>, maximum: Option<usize> },
    Boolean,
    Object { properties: Seq<(Seq<char>, SchemaObjectV)>, required: Seq<Seq<char>> },
    Array { items: Seq<char> },
}

pub enum SchemaOrReferenceV {
    Reference(Seq<char>),
    Item(SchemaObjectV),
}

pub enum ApiParameterV {
    Query { name: Seq<char>, schema: SchemaOrReferenceV },
    Path { name: Seq<char>, schema: SchemaOrReferenceV },
}

pub struct ResponseV {
    pub content: Seq<(Seq<char>, SchemaOrReferenceV)>,
}

pub struct OperationV {
    pub operation_id: Seq<char>,
    pub parameters: Seq<ApiParameterV>,
    pub responses: Seq<(u16, ResponseV)>,
}

pub struct PathItemV {
    pub get: Option<OperationV>,
}

pub struct OpenApiV {
    pub openapi: Seq<char>,
    pub paths: Seq<(Seq<char>, PathItemV)>,
    pub schemas: Seq<(Seq<char>, SchemaOrReferenceV)>,
}

pub open spec fn schema_object_view(s: SchemaObject) -> SchemaObjectV
    decreases s,
{
    match s {
        SchemaObject::String { format, max_length } => SchemaObjectV::String { format, max_length },
        SchemaObject::Number { format, maximum } => SchemaObjectV::Number { format, maximum },
        SchemaObject::Integer { format, maximum } => SchemaObjectV::Integer { format, maximum },
        SchemaObject::Boolean => SchemaObjectV::Boolean,
        SchemaObject::Object { properties, required } => SchemaObjectV::Object {
            properties: properties_view(properties@),
            required: required@.map_values(|r: String| r@),
        },
        SchemaObject::Array { items } => SchemaObjectV::Array { items: items@ },
    }
}

pub open spec fn properties_view(ps: Seq<(String, SchemaObject)>) -> Seq<(Seq<char>, SchemaObjectV)>
    decreases ps,
{
    if ps.len() == 0 {
        Seq::empty()
    } else {
        properties_view(ps.drop_last()).push((ps.last().0@, schema_object_view(ps.last().1)))
    }
}

pub open spec fn schema_or_reference_view(s: SchemaOrReference) -> SchemaOrReferenceV {
    match s {
        SchemaOrReference::Reference(r) => SchemaOrReferenceV::Reference(r@),
        SchemaOrReference::Item(o) => SchemaOrReferenceV::Item(schema_object_view(o)),
    }
}

pub open spec fn named_schemas_view(es: Seq<(String, SchemaOrReference)>) -> Seq<(Seq<char>, SchemaOrReferenceV)> {
    es.map_values(|e: (String, SchemaOrReference)| (e.0@, schema_or_reference_view(e.1)))
}

pub open spec fn api_parameter_view(p: ApiParameter) -> ApiParameterV {
    match p {
        ApiParameter::Query { name, schema } => ApiParameterV::Query { name: name@, schema: schema_or_reference_view(schema) },
        ApiParameter::Path { name, schema } => ApiParameterV::Path { name: name@, schema: schema_or_reference_view(schema) },
    }
}

pub open spec fn response_view(r: Response) -> ResponseV {
    ResponseV { content: named_schemas_view(r.content@) }
}

pub open spec fn operation_view(o: Operation) -> OperationV {
    OperationV {
        operation_id: o.operation_id@,
        parameters: o.parameters@.map_values(|p: ApiParameter| api_parameter_view(p)),
        responses: o.responses@.map_values(|r: (u16, Response)| (r.0, response_view(r.1))),
    }
}

pub open spec fn path_item_view(p: PathItem) -> PathItemV {
    PathItemV {
        get: match p.get {
            Some(o) => Some(operation_view(o)),
            None => None,
        },
    }
}

pub open spec fn path_items_view(es: Seq<(String, PathItem)>) -> Seq<(Seq<char>, PathItemV)> {
    es.map_values(|e: (String, PathItem)| (e.0@, path_item_view(e.1)))
}

pub open spec fn open_api_view(o: OpenApi) -> OpenApiV {
    OpenApiV { openapi: o.openapi@, paths: path_items_view(o.paths@), schemas: named_schemas_view(o.schemas@) }
}

pub open spec fn open_apis_view(os: Seq<OpenApi>) -> Seq<OpenApiV> {
    os.map_values(|o: OpenApi| open_api_view(o))
}

impl View for OpenApi {
    type V = OpenApiV;

    open spec fn view(&self) -> OpenApiV {
        open_api_view(*self)
    }
}

} // verus!
