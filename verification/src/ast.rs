use vstd::prelude::*;
use indexmap::IndexMap;
use std::rc::Rc;

use crate::maps::{content_entries, endpoint_entries, path_entries, response_entries};
use crate::util::ReferenceOr;
use crate::generator::{definition_size, fields_size, lemma_field_smaller};
use crate::parser::lemma_fields_view;
use crate::text::share_schema;

verus! {

/// A whole source file: its schemas, in the order of definition, and its APIs.
#[derive(Debug)]
pub struct Document {
    pub schemas: Vec<Rc<Schema>>,
    pub apis: Vec<API>,
}

/// A named type.
#[derive(Debug, Clone)]
pub struct Schema {
    pub identifier: String,
    pub definition: ReferenceOr,
}

impl Schema {
    pub fn new(identifier: String, definition: ReferenceOr) -> (schema: Schema)
        ensures
            schema.identifier == identifier,
            schema.definition == definition,
    {
        Schema { identifier, definition }
    }
}

/// The shape of a type given in place.
#[derive(Debug)]
pub enum Definition {
    Primitive(Primitive),
    Array(Rc<Schema>),
    Object(Vec<Field>),
}

impl Definition {
    /// The same definition with its constraints replaced by `constraints`.
    /// Only primitive definitions carry constraints.
    pub fn constrained_by(self: &Self, constraints: &Vec<Constraint>) -> (result: Self)
        requires
            self is Primitive,
        ensures
            result is Primitive,
            definition_view(result) == DefinitionV::Primitive(PrimitiveV {
                constraints: constraints@,
                ..primitive_view(self->Primitive_0)
            }),
    {
        match self {
            Definition::Primitive(basic) => Definition::Primitive(basic.constrained_by(constraints)),
            Definition::Array(_element) => Definition::Object(Vec::new()),
            Definition::Object(_fields) => Definition::Object(Vec::new()),
        }
    }
}

impl Clone for Definition {
    fn clone(&self) -> (copy: Self)
        ensures
            definition_view(copy) == definition_view(*self),
    {
        copy_definition(self)
    }
}

/// A copy of a definition; schemas it refers to are shared.
fn copy_definition(d: &Definition) -> (copy: Definition)
    ensures
        definition_view(copy) == definition_view(*d),
    decreases definition_size(definition_view(*d)),
{
    match d {
        Definition::Primitive(p) => Definition::Primitive(p.constrained_by(p.constraints())),
        Definition::Array(schema) => Definition::Array(share_schema(schema)),
        Definition::Object(fields) => Definition::Object(copy_fields(fields)),
    }
}

/// A copy of the fields of an object type.
fn copy_fields(fields: &Vec<Field>) -> (copy: Vec<Field>)
    ensures
        fields_view(copy@) == fields_view(fields@),
    decreases fields_size(fields_view(fields@)),
{
    let ghost fv = fields_view(fields@);
    proof {
        lemma_fields_view(fields@);
    }
    let mut copy: Vec<Field> = Vec::new();
    let mut k: usize = 0;
    while k < fields.len()
        invariant
            k <= fields.len(),
            fv == fields_view(fields@),
            fv == fields@.map_values(|f: Field| field_view(f)),
            copy@.map_values(|f: Field| field_view(f)) == fv.take(k as int),
        decreases fields.len() - k,
    {
        proof {
            lemma_field_smaller(fv, k as int);
        }
        let field = &fields[k];
        assert(fv[k as int] == field_view(*field));
        let definition = match &field.definition {
            ReferenceOr::Reference(schema) => ReferenceOr::Reference(share_schema(schema)),
            ReferenceOr::Actual(d) => ReferenceOr::Actual(copy_definition(d)),
        };
        let f = Field::new(field.name.clone(), definition, field.required);
        assert(field_view(f) == fv[k as int]);
        copy.push(f);
        assert(copy@.map_values(|f: Field| field_view(f)) == fv.take(k as int + 1));
        k = k + 1;
    }
    assert(fv.take(fields.len() as int) == fv);
    proof {
        lemma_fields_view(copy@);
    }
    copy
}

/// A primitive type with its optional format and its constraints.
#[derive(Debug, Clone)]
pub struct Primitive {
    kind: Kind,
    format: Option<Format>,
    constraints: Vec<Constraint>,
}

impl Primitive {
    pub fn new(kind: Kind, format: Option<Format>, constraints: Vec<Constraint>) -> (p: Self)
        ensures
            p.spec_kind() == kind,
            p.spec_format() == format,
            p.spec_constraints() == constraints,
    {
        Self { kind, format, constraints }
    }

    pub closed spec fn spec_kind(&self) -> Kind {
        self.kind
    }

    pub closed spec fn spec_format(&self) -> Option<Format> {
        self.format
    }

    pub closed spec fn spec_constraints(&self) -> Vec<Constraint> {
        self.constraints
    }

    pub fn kind(&self) -> (r: &Kind)
        ensures
            *r == self.spec_kind(),
    {
        &self.kind
    }

    pub fn format(&self) -> (r: &Option<Format>)
        ensures
            *r == self.spec_format(),
    {
        &self.format
    }

    pub fn constraints(&self) -> (r: &Vec<Constraint>)
        ensures
            *r == self.spec_constraints(),
    {
        &self.constraints
    }

    fn constrained_by(self: &Self, constraints: &Vec<Constraint>) -> (result: Self)
        ensures
            primitive_view(result) == (PrimitiveV { constraints: constraints@, ..primitive_view(*self) }),
    {
        Self {
            kind: self.kind,
            format: clone_format_option(&self.format),
            constraints: copy_constraints(constraints),
        }
    }
}

/// A copy of a list of constraints.
fn copy_constraints(constraints: &Vec<Constraint>) -> (copy: Vec<Constraint>)
    ensures
        copy@ == constraints@,
{
    let mut copy: Vec<Constraint> = Vec::new();
    let mut i: usize = 0;
    while i < constraints.len()
        invariant
            i <= constraints.len(),
            copy@ == constraints@.subrange(0, i as int),
        decreases constraints.len() - i,
    {
        copy.push(constraints[i]);
        i = i + 1;
    }
    assert(constraints@.subrange(0, constraints.len() as int) == constraints@);
    copy
}

fn clone_format_option(format: &Option<Format>) -> (copy: Option<Format>)
    ensures
        option_format_view(copy) == option_format_view(*format),
{
    match format {
        None => None,
        Some(Format::Integer(f)) => Some(Format::Integer(*f)),
        Some(Format::Number(f)) => Some(Format::Number(*f)),
        Some(Format::String(f)) => Some(Format::String(
            match f {
                StringFormat::Date => StringFormat::Date,
                StringFormat::DateTime => StringFormat::DateTime,
                StringFormat::Password => StringFormat::Password,
                StringFormat::Byte => StringFormat::Byte,
                StringFormat::Binary => StringFormat::Binary,
                StringFormat::Email => StringFormat::Email,
                StringFormat::Uuid => StringFormat::Uuid,
                StringFormat::Uri => StringFormat::Uri,
                StringFormat::Hostname => StringFormat::Hostname,
                StringFormat::Ipv4 => StringFormat::Ipv4,
                StringFormat::Ipv6 => StringFormat::Ipv6,
                StringFormat::Custom(name) => StringFormat::Custom(name.clone()),
            },
        )),
    }
}

/// A bound on the values of a primitive type.
#[derive(Debug, Clone, Copy, PartialEq, Eq, Hash, Structural)]
pub enum Constraint {
    Maximum(usize),
    Minimum(usize),
}

/// A property of an object type.
#[derive(Debug, Clone)]
pub struct Field {
    name: String,
    definition: ReferenceOr,
    required: bool,
}

impl Field {
    pub fn new(name: String, definition: ReferenceOr, required: bool) -> (field: Self)
        ensures
            field.spec_name() == name,
            field.spec_definition() == definition,
            field.spec_required() == required,
    {
        Field { name, definition, required }
    }

    pub closed spec fn spec_name(&self) -> String {
        self.name
    }

    pub closed spec fn spec_definition(&self) -> ReferenceOr {
        self.definition
    }

    pub closed spec fn spec_required(&self) -> bool {
        self.required
    }

    pub fn name(&self) -> (r: &String)
        ensures
            *r == self.spec_name(),
    {
        &self.name
    }

    pub fn definition(&self) -> (r: &ReferenceOr)
        ensures
            *r == self.spec_definition(),
    {
        &self.definition
    }

    pub fn required(&self) -> (r: &bool)
        ensures
            *r == self.spec_required(),
    {
        &self.required
    }
}

#[derive(Debug, Clone, Copy, PartialEq, Eq, Structural)]
pub enum Kind {
    String,
    Number,
    Integer,
    Boolean,
}

#[derive(Debug, Clone)]
pub enum StringFormat {
    Date,
    DateTime,
    Password,
    Byte,
    Binary,
    Email,
    Uuid,
    Uri,
    Hostname,
    Ipv4,
    Ipv6,
    Custom(String),
}

#[derive(Debug, Clone, Copy, PartialEq, Eq, Structural)]
pub enum IntegerFormat {
    Int32,
    Int64,
}

#[derive(Debug, Clone, Copy, PartialEq, Eq, Structural)]
pub enum NumberFormat {
    Float,
    Double,
}

#[derive(Debug, Clone)]
pub enum Format {
    String(StringFormat),
    Integer(IntegerFormat),
    Number(NumberFormat),
}

/// An API: its name, its version and its paths by URL.
#[derive(Debug, Clone)]
pub struct API {
    name: String,
    version: String,
    paths: IndexMap<String, Path>,
}

impl API {
    pub fn new(name: String, version: String, paths: IndexMap<String, Path>) -> (api: Self)
        ensures
            api.spec_name() == name,
            api.spec_version() == version,
            api.spec_paths() == paths,
    {
        Self { name, version, paths }
    }

    pub closed spec fn spec_name(&self) -> String {
        self.name
    }

    pub closed spec fn spec_version(&self) -> String {
        self.version
    }

    pub closed spec fn spec_paths(&self) -> IndexMap<String, Path> {
        self.paths
    }

    pub fn name(&self) -> (r: &String)
        ensures
            *r == self.spec_name(),
    {
        &self.name
    }

    pub fn version(&self) -> (r: &String)
        ensures
            *r == self.spec_version(),
    {
        &self.version
    }

    pub fn paths(&self) -> (r: &IndexMap<String, Path>)
        ensures
            *r == self.spec_paths(),
    {
        &self.paths
    }
}

/// The endpoints of one URL path, by HTTP method.
#[derive(Debug, Clone)]
pub struct Path {
    endpoints: IndexMap<HttpMethod, Endpoint>,
}

impl Path {
    pub fn new(endpoints: IndexMap<HttpMethod, Endpoint>) -> (path: Self)
        ensures
            path.spec_endpoints() == endpoints,
    {
        Path { endpoints }
    }

    pub closed spec fn spec_endpoints(&self) -> IndexMap<HttpMethod, Endpoint> {
        self.endpoints
    }

    pub fn endpoints(&self) -> (r: &IndexMap<HttpMethod, Endpoint>)
        ensures
            *r == self.spec_endpoints(),
    {
        &self.endpoints
    }
}

/// One operation: its identifier, its parameters and its responses by HTTP code.
#[derive(Debug, Clone)]
pub struct Endpoint {
    operation_id: String,
    parameters: Vec<Parameter>,
    responses: IndexMap<u16, Responses>,
}

impl Endpoint {
    pub fn new(
        operation_id: String,
        parameters: Vec<Parameter>,
        responses: IndexMap<u16, Responses>,
    ) -> (endpoint: Self)
        ensures
            endpoint.spec_operation_id() == operation_id,
            endpoint.spec_parameters() == parameters,
            endpoint.spec_responses() == responses,
    {
        Self { operation_id, parameters, responses }
    }

    pub closed spec fn spec_operation_id(&self) -> String {
        self.operation_id
    }

    pub closed spec fn spec_parameters(&self) -> Vec<Parameter> {
        self.parameters
    }

    pub closed spec fn spec_responses(&self) -> IndexMap<u16, Responses> {
        self.responses
    }

    pub fn operation_id(&self) -> (r: &String)
        ensures
            *r == self.spec_operation_id(),
    {
        &self.operation_id
    }

    pub fn parameters(&self) -> (r: &Vec<Parameter>)
        ensures
            *r == self.spec_parameters(),
    {
        &self.parameters
    }

    pub fn responses(&self) -> (r: &IndexMap<u16, Responses>)
        ensures
            *r == self.spec_responses(),
    {
        &self.responses
    }
}

/// A parameter of an endpoint.
#[derive(Debug, Clone)]
pub struct Parameter {
    name: String,
    kind: ReferenceOr,
    location: ParameterLocation,
    constraints: Vec<Constraint>,
}

impl Parameter {
    pub fn new(identifier: &str, kind: ReferenceOr, annotations: ParameterAnnotations) -> (p: Parameter)
        ensures
            p.spec_name()@ == identifier@,
            p.spec_kind() == kind,
            p.spec_location() == annotations.spec_location(),
            p.spec_constraints() == annotations.spec_constraints(),
    {
        Parameter {
            name: identifier.to_owned(),
            location: annotations.parameter_type,
            constraints: annotations.constraints,
            kind,
        }
    }

    pub closed spec fn spec_name(&self) -> String {
        self.name
    }

    pub closed spec fn spec_kind(&self) -> ReferenceOr {
        self.kind
    }

    pub closed spec fn spec_location(&self) -> ParameterLocation {
        self.location
    }

    pub closed spec fn spec_constraints(&self) -> Vec<Constraint> {
        self.constraints
    }

    pub fn name(&self) -> (r: &String)
        ensures
            *r == self.spec_name(),
    {
        &self.name
    }

    pub fn kind(&self) -> (r: &ReferenceOr)
        ensures
            *r == self.spec_kind(),
    {
        &self.kind
    }

    pub fn location(&self) -> (r: &ParameterLocation)
        ensures
            *r == self.spec_location(),
    {
        &self.location
    }

    pub fn constraints(&self) -> (r: &Vec<Constraint>)
        ensures
            *r == self.spec_constraints(),
    {
        &self.constraints
    }
}

#[derive(Debug, Clone, Copy, PartialEq, Eq, Structural)]
pub enum ParameterLocation {
    Query,
    Path,
    Header,
    Cookie,
}

/// The bodies of one response, by media type (written out, as in `application/json`).
pub type Responses = IndexMap<String, ReferenceOr>;

pub type HttpCode = u16;

#[derive(Debug, Clone, Copy, Hash, PartialEq, Eq, Structural)]
pub enum HttpMethod {
    Get,
    Put,
    Post,
    Patch,
    Delete,
}

/// What the annotations of a parameter say: where it is given and how it is bounded.
#[derive(Debug, Clone)]
pub struct ParameterAnnotations {
    parameter_type: ParameterLocation,
    constraints: Vec<Constraint>,
}

impl ParameterAnnotations {
    pub fn new(location: ParameterLocation, constraints: Vec<Constraint>) -> (a: Self)
        ensures
            a.spec_location() == location,
            a.spec_constraints() == constraints,
    {
        Self { parameter_type: location, constraints: constraints }
    }

    pub closed spec fn spec_location(&self) -> ParameterLocation {
        self.parameter_type
    }

    pub closed spec fn spec_constraints(&self) -> Vec<Constraint> {
        self.constraints
    }
}

// ---------------------------------------------------------------------------
// Mathematical views of the syntax tree: strings become character sequences,
// vectors and ordered maps become sequences, and a reference to a schema is
// seen as the view of the schema it holds.
// ---------------------------------------------------------------------------

pub enum StringFormatV {
    Date,
    DateTime,
    Password,
    Byte,
    Binary,
    Email,
    Uuid,
    Uri,
    Hostname,
    Ipv4,
    Ipv6,
    Custom(Seq<char>),
}

pub enum FormatV {
    String(StringFormatV),
    Integer(IntegerFormat),
    Number(NumberFormat),
}

pub struct PrimitiveV {
    pub kind: Kind,
    pub format: Option<FormatV>,
    pub constraints: Seq<Constraint>,
}

pub enum DefinitionV {
    Primitive(PrimitiveV),
    /// An array of elements of the schema.
    Array(Box<SchemaV>),
    Object(Seq<FieldV>),
}

pub struct FieldV {
    pub name: Seq<char>,
    pub definition: RefOrV,
    pub required: bool,
}

pub enum RefOrV {
    /// A reference to the schema.
    Reference(Box<SchemaV>),
    Actual(DefinitionV),
}

pub struct SchemaV {
    pub identifier: Seq<char>,
    pub definition: RefOrV,
}

pub struct ParameterV {
    pub name: Seq<char>,
    pub kind: RefOrV,
    pub location: ParameterLocation,
    pub constraints: Seq<Constraint>,
}

pub struct EndpointV {
    pub operation_id: Seq<char>,
    pub parameters: Seq<ParameterV>,
    pub responses: Seq<(u16, Seq<(Seq<char>, RefOrV)>)>,
}

pub struct PathV {
    pub endpoints: Seq<(HttpMethod, EndpointV)>,
}

pub struct ApiV {
    pub name: Seq<char>,
    pub version: Seq<char>,
    pub paths: Seq<(Seq<char>, PathV)>,
}

pub struct DocumentV {
    pub schemas: Seq<SchemaV>,
    pub apis: Seq<ApiV>,
}

pub open spec fn string_format_view(f: StringFormat) -> StringFormatV {
    match f {
        StringFormat::Date => StringFormatV::Date,
        StringFormat::DateTime => StringFormatV::DateTime,
        StringFormat::Password => StringFormatV::Password,
        StringFormat::Byte => StringFormatV::Byte,
        StringFormat::Binary => StringFormatV::Binary,
        StringFormat::Email => StringFormatV::Email,
        StringFormat::Uuid => StringFormatV::Uuid,
        StringFormat::Uri => StringFormatV::Uri,
        StringFormat::Hostname => StringFormatV::Hostname,
        StringFormat::Ipv4 => StringFormatV::Ipv4,
        StringFormat::Ipv6 => StringFormatV::Ipv6,
        StringFormat::Custom(name) => StringFormatV::Custom(name@),
    }
}

pub open spec fn format_view(f: Format) -> FormatV {
    match f {
        Format::String(s) => FormatV::String(string_format_view(s)),
        Format::Integer(i) => FormatV::Integer(i),
        Format::Number(n) => FormatV::Number(n),
    }
}

pub open spec fn option_format_view(f: Option<Format>) -> Option<FormatV> {
    match f {
        Some(f) => Some(format_view(f)),
        None => None,
    }
}

pub open spec fn primitive_view(p: Primitive) -> PrimitiveV {
    PrimitiveV {
        kind: p.spec_kind(),
        format: option_format_view(p.spec_format()),
        constraints: p.spec_constraints()@,
    }
}

pub open spec fn reference_or_view(r: ReferenceOr) -> RefOrV
    decreases r,
{
    match r {
        ReferenceOr::Reference(schema) => RefOrV::Reference(Box::new(schema_view(*schema))),
        ReferenceOr::Actual(definition) => RefOrV::Actual(definition_view(definition)),
    }
}

pub open spec fn definition_view(d: Definition) -> DefinitionV
    decreases d,
{
    match d {
        Definition::Primitive(p) => DefinitionV::Primitive(primitive_view(p)),
        Definition::Array(schema) => DefinitionV::Array(Box::new(schema_view(*schema))),
        Definition::Object(fields) => DefinitionV::Object(fields_view(fields@)),
    }
}

pub open spec fn fields_view(fields: Seq<Field>) -> Seq<FieldV>
    decreases fields,
{
    if fields.len() == 0 {
        Seq::empty()
    } else {
        seq![field_view(fields[0])] + fields_view(fields.subrange(1, fields.len() as int))
    }
}

pub open spec fn field_view(f: Field) -> FieldV
    decreases f,
{
    FieldV { name: f.spec_name()@, definition: reference_or_view(f.spec_definition()), required: f.spec_required() }
}

pub open spec fn schema_view(s: Schema) -> SchemaV
    decreases s,
{
    SchemaV { identifier: s.identifier@, definition: reference_or_view(s.definition) }
}

pub open spec fn parameter_view(p: Parameter) -> ParameterV {
    ParameterV {
        name: p.spec_name()@,
        kind: reference_or_view(p.spec_kind()),
        location: p.spec_location(),
        constraints: p.spec_constraints()@,
    }
}

pub open spec fn content_view(es: Seq<(Seq<char>, ReferenceOr)>) -> Seq<(Seq<char>, RefOrV)> {
    es.map_values(|e: (Seq<char>, ReferenceOr)| (e.0, reference_or_view(e.1)))
}

pub open spec fn responses_view(r: Responses) -> Seq<(Seq<char>, RefOrV)> {
    content_view(content_entries(r))
}

pub open spec fn response_entries_view(es: Seq<(u16, Responses)>) -> Seq<(u16, Seq<(Seq<char>, RefOrV)>)> {
    es.map_values(|r: (u16, Responses)| (r.0, responses_view(r.1)))
}

pub open spec fn parameters_view(ps: Seq<Parameter>) -> Seq<ParameterV> {
    ps.map_values(|p: Parameter| parameter_view(p))
}

pub open spec fn endpoint_view(e: Endpoint) -> EndpointV {
    EndpointV {
        operation_id: e.spec_operation_id()@,
        parameters: parameters_view(e.spec_parameters()@),
        responses: response_entries_view(response_entries(e.spec_responses())),
    }
}

pub open spec fn endpoint_entries_view(es: Seq<(HttpMethod, Endpoint)>) -> Seq<(HttpMethod, EndpointV)> {
    es.map_values(|e: (HttpMethod, Endpoint)| (e.0, endpoint_view(e.1)))
}

pub open spec fn path_view(p: Path) -> PathV {
    PathV { endpoints: endpoint_entries_view(endpoint_entries(p.spec_endpoints())) }
}

pub open spec fn path_entries_view(es: Seq<(Seq<char>, Path)>) -> Seq<(Seq<char>, PathV)> {
    es.map_values(|p: (Seq<char>, Path)| (p.0, path_view(p.1)))
}

pub open spec fn api_view(a: API) -> ApiV {
    ApiV {
        name: a.spec_name()@,
        version: a.spec_version()@,
        paths: path_entries_view(path_entries(a.spec_paths())),
    }
}

pub open spec fn schemas_view(ss: Seq<Rc<Schema>>) -> Seq<SchemaV> {
    ss.map_values(|s: Rc<Schema>| schema_view(*s))
}

pub open spec fn apis_view(apis: Seq<API>) -> Seq<ApiV> {
    apis.map_values(|a: API| api_view(a))
}

pub open spec fn document_view(d: Document) -> DocumentV {
    DocumentV { schemas: schemas_view(d.schemas@), apis: apis_view(d.apis@) }
}

impl View for Document {
    type V = DocumentV;

    open spec fn view(&self) -> DocumentV {
        document_view(*self)
    }
}

impl View for Schema {
    type V = SchemaV;

    open spec fn view(&self) -> SchemaV {
        schema_view(*self)
    }
}

impl View for API {
    type V = ApiV;

    open spec fn view(&self) -> ApiV {
        api_view(*self)
    }
}

} // verus!
