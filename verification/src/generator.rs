//! Turning a document into OpenAPI documents, one per API. Each OpenAPI
//! document holds the API's paths and, as components, all the schemas of the
//! source document.
use vstd::prelude::*;

use crate::ast::{
    api_view, document_view, endpoint_entries_view, endpoint_view, parameter_view, path_entries_view, path_view,
    response_entries_view, responses_view, schema_view, schemas_view, Document, Endpoint, Path, Responses, API,
    definition_view, field_view, fields_view, primitive_view, reference_or_view, string_format_view, Definition,
    Field, Primitive, StringFormat, Constraint, DefinitionV, DocumentV, EndpointV, FieldV, FormatV, HttpMethod, Kind, ParameterLocation,
    ParameterV, PathV, PrimitiveV, RefOrV, SchemaV, StringFormatV, ApiV,
};
use crate::maps::{
    content_at, content_count, content_entries, endpoint_entries, endpoint_get, key_position, lemma_key_position,
    lemma_key_position_same_keys, map_get, map_insert, path_at, path_count, path_entries, response_at, response_count,
    response_entries,
};
use crate::parser::lemma_fields_view;
use crate::util::ReferenceOr;
use crate::openapi::{
    api_parameter_view, open_api_view, open_apis_view, operation_view, path_item_view, path_items_view,
    response_view, ApiParameter, OpenApi, Operation, PathItem, Response,
    properties_view, schema_object_view, named_schemas_view, schema_or_reference_view, SchemaObject,
    SchemaOrReference, ApiParameterV, OpenApiV, OperationV, PathItemV, ResponseV, SchemaObjectV, SchemaOrReferenceV, StringFormatName,
};

verus! {

// ---------------------------------------------------------------------------
// What the generator produces.
// ---------------------------------------------------------------------------

/// Where a component schema is found in a document.
pub open spec fn schema_reference(name: Seq<char>) -> Seq<char> {
    "#/components/schemas/"@ + name
}

/// The string formats that have an OpenAPI name.
pub open spec fn has_format_name(sf: StringFormatV) -> bool {
    match sf {
        StringFormatV::Date | StringFormatV::DateTime | StringFormatV::Password | StringFormatV::Byte
        | StringFormatV::Binary => true,
        _ => false,
    }
}

pub open spec fn format_name(sf: StringFormatV) -> StringFormatName
    recommends
        has_format_name(sf),
{
    match sf {
        StringFormatV::DateTime => StringFormatName::DateTime,
        StringFormatV::Password => StringFormatName::Password,
        StringFormatV::Byte => StringFormatName::Byte,
        StringFormatV::Binary => StringFormatName::Binary,
        _ => StringFormatName::Date,
    }
}

/// A maximum: the length of a string, the largest number or integer; other
/// schemas have none.
pub open spec fn with_maximum(kind: SchemaObjectV, max: usize) -> SchemaObjectV {
    match kind {
        SchemaObjectV::String { format, .. } => SchemaObjectV::String { format, max_length: Some(max) },
        SchemaObjectV::Number { format, .. } => SchemaObjectV::Number { format, maximum: Some(max) },
        SchemaObjectV::Integer { format, .. } => SchemaObjectV::Integer { format, maximum: Some(max) },
        other => other,
    }
}

/// The schema with the constraints applied in order; only maxima apply.
pub open spec fn with_constraints(kind: SchemaObjectV, cs: Seq<Constraint>) -> SchemaObjectV
    decreases cs.len(),
{
    if cs.len() == 0 {
        kind
    } else {
        let before = with_constraints(kind, cs.drop_last());
        match cs.last() {
            Constraint::Maximum(max) => with_maximum(before, max),
            Constraint::Minimum(_) => before,
        }
    }
}

/// The schema of a primitive: its type, its format where the format fits the
/// type, and its constraints.
pub open spec fn gen_primitive(p: PrimitiveV) -> SchemaObjectV {
    let base = match p.kind {
        Kind::String => match p.format {
            Some(FormatV::String(sf)) => SchemaObjectV::String { format: Some(format_name(sf)), max_length: None },
            _ => SchemaObjectV::String { format: None, max_length: None },
        },
        Kind::Number => match p.format {
            Some(FormatV::Number(nf)) => SchemaObjectV::Number { format: Some(nf), maximum: None },
            _ => SchemaObjectV::Number { format: None, maximum: None },
        },
        Kind::Integer => match p.format {
            Some(FormatV::Integer(inf)) => SchemaObjectV::Integer { format: Some(inf), maximum: None },
            _ => SchemaObjectV::Integer { format: None, maximum: None },
        },
        Kind::Boolean => SchemaObjectV::Boolean,
    };
    with_constraints(base, p.constraints)
}

/// The schema of a definition. An object lists as properties its fields whose
/// type is given in place (fields that refer to a schema are left out) and as
/// required all its required fields; an array refers to its element schema.
pub open spec fn gen_definition(d: DefinitionV) -> SchemaObjectV
    decreases d,
{
    match d {
        DefinitionV::Primitive(p) => gen_primitive(p),
        DefinitionV::Object(fields) => SchemaObjectV::Object {
            properties: gen_properties(fields),
            required: required_names(fields),
        },
        DefinitionV::Array(element) => SchemaObjectV::Array { items: schema_reference(element.identifier) },
    }
}

/// The properties of an object, inserted by name in order.
pub open spec fn gen_properties(fields: Seq<FieldV>) -> Seq<(Seq<char>, SchemaObjectV)>
    decreases fields,
{
    if fields.len() == 0 {
        Seq::empty()
    } else {
        let before = gen_properties(fields.drop_last());
        match fields.last().definition {
            RefOrV::Actual(d) => map_insert(before, fields.last().name, gen_definition(d)),
            RefOrV::Reference(_) => before,
        }
    }
}

/// The names of the required fields, in order.
pub open spec fn required_names(fields: Seq<FieldV>) -> Seq<Seq<char>>
    decreases fields.len(),
{
    if fields.len() == 0 {
        Seq::empty()
    } else if fields.last().required {
        required_names(fields.drop_last()).push(fields.last().name)
    } else {
        required_names(fields.drop_last())
    }
}

pub open spec fn gen_reference_or(r: RefOrV) -> SchemaOrReferenceV {
    match r {
        RefOrV::Reference(schema) => SchemaOrReferenceV::Reference(schema_reference(schema.identifier)),
        RefOrV::Actual(d) => SchemaOrReferenceV::Item(gen_definition(d)),
    }
}

/// The component schemas, inserted by name in order.
pub open spec fn gen_schemas(schemas: Seq<SchemaV>) -> Seq<(Seq<char>, SchemaOrReferenceV)>
    decreases schemas.len(),
{
    if schemas.len() == 0 {
        Seq::empty()
    } else {
        map_insert(
            gen_schemas(schemas.drop_last()),
            schemas.last().identifier,
            gen_reference_or(schemas.last().definition),
        )
    }
}

pub open spec fn gen_parameter(p: ParameterV) -> ApiParameterV {
    match p.location {
        ParameterLocation::Path => ApiParameterV::Path { name: p.name, schema: gen_reference_or(p.kind) },
        _ => ApiParameterV::Query { name: p.name, schema: gen_reference_or(p.kind) },
    }
}

pub open spec fn gen_content(c: Seq<(Seq<char>, RefOrV)>) -> Seq<(Seq<char>, SchemaOrReferenceV)> {
    c.map_values(|e: (Seq<char>, RefOrV)| (e.0, gen_reference_or(e.1)))
}

pub open spec fn gen_responses(rs: Seq<(u16, Seq<(Seq<char>, RefOrV)>)>) -> Seq<(u16, ResponseV)> {
    rs.map_values(|r: (u16, Seq<(Seq<char>, RefOrV)>)| (r.0, ResponseV { content: gen_content(r.1) }))
}

pub open spec fn gen_endpoint(e: EndpointV) -> OperationV {
    OperationV {
        operation_id: e.operation_id,
        parameters: e.parameters.map_values(|p: ParameterV| gen_parameter(p)),
        responses: gen_responses(e.responses),
    }
}

/// A path item: the operation of the path's `GET` endpoint, if it has one.
pub open spec fn gen_path(p: PathV) -> PathItemV {
    PathItemV {
        get: match map_get(p.endpoints, HttpMethod::Get) {
            Some(e) => Some(gen_endpoint(e)),
            None => None,
        },
    }
}

pub open spec fn gen_api_paths(a: ApiV) -> Seq<(Seq<char>, PathItemV)> {
    a.paths.map_values(|p: (Seq<char>, PathV)| (p.0, gen_path(p.1)))
}

/// The version of the OpenAPI specification that the documents follow.
pub open spec fn openapi_version() -> Seq<char> {
    "3.0.3"@
}

pub open spec fn gen_api(doc: DocumentV, a: ApiV) -> OpenApiV {
    OpenApiV { openapi: openapi_version(), paths: gen_api_paths(a), schemas: gen_schemas(doc.schemas) }
}

/// The OpenAPI documents of a document, one per API, in order.
pub open spec fn gen_document(doc: DocumentV) -> Seq<OpenApiV> {
    doc.apis.map_values(|a: ApiV| gen_api(doc, a))
}

// ---------------------------------------------------------------------------
// Which documents the generator handles: string formats without an OpenAPI
// name, and parameters in a header or a cookie, have no rendering.
// ---------------------------------------------------------------------------

pub open spec fn primitive_ok(p: PrimitiveV) -> bool {
    match (p.kind, p.format) {
        (Kind::String, Some(FormatV::String(sf))) => has_format_name(sf),
        _ => true,
    }
}

pub open spec fn definition_ok(d: DefinitionV) -> bool
    decreases d,
{
    match d {
        DefinitionV::Primitive(p) => primitive_ok(p),
        DefinitionV::Object(fields) => fields_ok(fields),
        DefinitionV::Array(_) => true,
    }
}

pub open spec fn fields_ok(fields: Seq<FieldV>) -> bool
    decreases fields,
{
    if fields.len() == 0 {
        true
    } else {
        fields_ok(fields.drop_last()) && match fields.last().definition {
            RefOrV::Actual(d) => definition_ok(d),
            RefOrV::Reference(_) => true,
        }
    }
}

pub open spec fn reference_or_ok(r: RefOrV) -> bool {
    match r {
        RefOrV::Actual(d) => definition_ok(d),
        RefOrV::Reference(_) => true,
    }
}

pub open spec fn parameter_ok(p: ParameterV) -> bool {
    (p.location == ParameterLocation::Query || p.location == ParameterLocation::Path) && reference_or_ok(p.kind)
}

pub open spec fn endpoint_ok(e: EndpointV) -> bool {
    &&& forall|i: int| 0 <= i < e.parameters.len() ==> parameter_ok(#[trigger] e.parameters[i])
    &&& forall|i: int, j: int|
        0 <= i < e.responses.len() && 0 <= j < e.responses[i].1.len() ==> reference_or_ok(
            #[trigger] e.responses[i].1[j].1,
        )
}

pub open spec fn path_ok(p: PathV) -> bool {
    match map_get(p.endpoints, HttpMethod::Get) {
        Some(e) => endpoint_ok(e),
        None => true,
    }
}

pub open spec fn api_ok(a: ApiV) -> bool {
    forall|i: int| 0 <= i < a.paths.len() ==> path_ok(#[trigger] a.paths[i].1)
}

/// Whether the generator renders every schema and operation it meets: the
/// component schemas (met when there is an API) and the `GET` operations.
pub open spec fn generable(doc: DocumentV) -> bool {
    &&& doc.apis.len() > 0 ==> forall|i: int| 0 <= i < doc.schemas.len() ==> reference_or_ok(#[trigger] doc.schemas[i].definition)
    &&& forall|i: int| 0 <= i < doc.apis.len() ==> api_ok(#[trigger] doc.apis[i])
}

// ---------------------------------------------------------------------------
// The generator. Each function follows the function of the same shape above.
// ---------------------------------------------------------------------------

/// A measure of definitions that fields and elements make smaller.
pub open spec fn definition_size(d: DefinitionV) -> nat
    decreases d,
{
    match d {
        DefinitionV::Object(fields) => 1 + fields_size(fields),
        _ => 1,
    }
}

pub open spec fn fields_size(fields: Seq<FieldV>) -> nat
    decreases fields,
{
    if fields.len() == 0 {
        0
    } else {
        fields_size(fields.drop_last()) + 1 + match fields.last().definition {
            RefOrV::Actual(d) => definition_size(d),
            RefOrV::Reference(_) => 0,
        }
    }
}

pub proof fn lemma_field_smaller(fields: Seq<FieldV>, k: int)
    requires
        0 <= k < fields.len(),
    ensures
        fields[k].definition matches RefOrV::Actual(d) ==> definition_size(d) < fields_size(fields),
        fields_size(fields.take(k)) <= fields_size(fields),
    decreases fields.len(),
{
    if k < fields.len() - 1 {
        lemma_field_smaller(fields.drop_last(), k);
        assert(fields.drop_last()[k] == fields[k]);
        assert(fields.drop_last().take(k) == fields.take(k));
    } else {
        assert(fields.take(k) == fields.drop_last());
    }
}

proof fn lemma_fields_ok_each(fields: Seq<FieldV>, k: int)
    requires
        0 <= k < fields.len(),
        fields_ok(fields),
    ensures
        fields[k].definition matches RefOrV::Actual(d) ==> definition_ok(d),
        fields_ok(fields.take(k + 1)),
    decreases fields.len(),
{
    if k < fields.len() - 1 {
        lemma_fields_ok_each(fields.drop_last(), k);
        assert(fields.drop_last()[k] == fields[k]);
        assert(fields.drop_last().take(k + 1) == fields.take(k + 1));
    } else {
        assert(fields.take(k + 1) == fields);
    }
}

pub proof fn lemma_properties_view(ps: Seq<(String, SchemaObject)>)
    ensures
        properties_view(ps) == ps.map_values(|e: (String, SchemaObject)| (e.0@, schema_object_view(e.1))),
    decreases ps.len(),
{
    if ps.len() > 0 {
        lemma_properties_view(ps.drop_last());
    }
    assert(properties_view(ps) =~= ps.map_values(|e: (String, SchemaObject)| (e.0@, schema_object_view(e.1))));
}

/// Where a component schema is found, written out.
fn schema_path(name: &String) -> (s: String)
    ensures
        s@ == schema_reference(name@),
{
    let mut path = String::from_str("#/components/schemas/");
    path.append(name.as_str());
    path
}

fn string_format(sf: &StringFormat) -> (name: StringFormatName)
    requires
        has_format_name(string_format_view(*sf)),
    ensures
        name == format_name(string_format_view(*sf)),
{
    match sf {
        StringFormat::Date => StringFormatName::Date,
        StringFormat::DateTime => StringFormatName::DateTime,
        StringFormat::Password => StringFormatName::Password,
        StringFormat::Byte => StringFormatName::Byte,
        _ => StringFormatName::Binary,
    }
}

fn set_max(kind: &mut SchemaObject, max: usize)
    ensures
        schema_object_view(*final(kind)) == with_maximum(schema_object_view(*old(kind)), max),
{
    match kind {
        SchemaObject::String { max_length, .. } => *max_length = Some(max),
        SchemaObject::Number { maximum, .. } => *maximum = Some(max),
        SchemaObject::Integer { maximum, .. } => *maximum = Some(max),
        _ => {},
    }
}

fn apply_constraint(kind: &mut SchemaObject, constraints: &[Constraint])
    ensures
        schema_object_view(*final(kind)) == with_constraints(schema_object_view(*old(kind)), constraints@),
{
    let ghost start = schema_object_view(*kind);
    let mut i: usize = 0;
    while i < constraints.len()
        invariant
            i <= constraints.len(),
            schema_object_view(*kind) == with_constraints(start, constraints@.take(i as int)),
        decreases constraints.len() - i,
    {
        assert(constraints@.take(i + 1).drop_last() == constraints@.take(i as int));
        match constraints[i] {
            Constraint::Maximum(max) => set_max(kind, max),
            _ => {},
        }
        i = i + 1;
    }
    assert(constraints@.take(constraints.len() as int) == constraints@);
}

fn primitive_schema(p: &Primitive) -> (s: SchemaObject)
    requires
        primitive_ok(primitive_view(*p)),
    ensures
        schema_object_view(s) == gen_primitive(primitive_view(*p)),
{
    let mut kind = match (p.kind(), p.format()) {
        (Kind::String, Some(crate::ast::Format::String(sf))) => SchemaObject::String { format: Some(string_format(sf)), max_length: None },
        (Kind::String, _) => SchemaObject::String { format: None, max_length: None },
        (Kind::Number, Some(crate::ast::Format::Number(nf))) => SchemaObject::Number { format: Some(*nf), maximum: None },
        (Kind::Number, _) => SchemaObject::Number { format: None, maximum: None },
        (Kind::Integer, Some(crate::ast::Format::Integer(inf))) => SchemaObject::Integer { format: Some(*inf), maximum: None },
        (Kind::Integer, _) => SchemaObject::Integer { format: None, maximum: None },
        (Kind::Boolean, _) => SchemaObject::Boolean,
    };
    apply_constraint(&mut kind, p.constraints().as_slice());
    kind
}

/// The schema of a definition.
fn definition_schema(d: &Definition) -> (s: SchemaObject)
    requires
        definition_ok(definition_view(*d)),
    ensures
        schema_object_view(s) == gen_definition(definition_view(*d)),
    decreases definition_size(definition_view(*d)),
{
    match d {
        Definition::Primitive(basic) => primitive_schema(basic),
        Definition::Object(fields) => SchemaObject::Object {
            properties: Definition::properties(fields),
            required: Definition::required_properties(fields),
        },
        Definition::Array(array) => SchemaObject::Array { items: schema_path(&array.identifier) },
    }
}

impl Definition {
    /// The properties of an object: its fields whose type is given in place,
    /// inserted by name in order.
    pub fn properties(fields: &Vec<Field>) -> (map: Vec<(String, SchemaObject)>)
        requires
            fields_ok(fields_view(fields@)),
        ensures
            properties_view(map@) == gen_properties(fields_view(fields@)),
        decreases fields_size(fields_view(fields@)),
    {
        let ghost fv = fields_view(fields@);
        proof {
            lemma_fields_view(fields@);
        }
        let mut map: Vec<(String, SchemaObject)> = Vec::new();
        assert(fv.take(0) =~= Seq::<FieldV>::empty());
        let mut k: usize = 0;
        while k < fields.len()
            invariant
                k <= fields.len(),
                fv == fields_view(fields@),
                fv == fields@.map_values(|f: Field| field_view(f)),
                fields_ok(fv),
                properties_view(map@) == gen_properties(fv.take(k as int)),
            decreases fields.len() - k,
        {
            proof {
                lemma_fields_ok_each(fv, k as int);
                lemma_field_smaller(fv, k as int);
            }
            assert(fv.take(k + 1).drop_last() == fv.take(k as int));
            assert(fv.take(k + 1).last() == fv[k as int]);
            let field = &fields[k];
            match field.definition() {
                ReferenceOr::Reference(_reference) => {},
                ReferenceOr::Actual(definition) => {
                    let schema = definition_schema(definition);
                    insert_property(&mut map, field.name().clone(), schema);
                },
            }
            k = k + 1;
        }
        assert(fv.take(fields.len() as int) == fv);
        map
    }

    /// The names of the required fields, in order.
    pub fn required_properties(fields: &Vec<Field>) -> (names: Vec<String>)
        ensures
            names@.map_values(|n: String| n@) == required_names(fields_view(fields@)),
    {
        let ghost fv = fields_view(fields@);
        proof {
            lemma_fields_view(fields@);
        }
        let mut names: Vec<String> = Vec::new();
        assert(names@.map_values(|n: String| n@) =~= required_names(fv.take(0)));
        let mut k: usize = 0;
        while k < fields.len()
            invariant
                k <= fields.len(),
                fv == fields@.map_values(|f: Field| field_view(f)),
                names@.map_values(|n: String| n@) == required_names(fv.take(k as int)),
            decreases fields.len() - k,
        {
            assert(fv.take(k + 1).drop_last() == fv.take(k as int));
            let field = &fields[k];
            if *field.required() {
                let name = field.name().clone();
                assert(names@.push(name).map_values(|n: String| n@) =~= names@.map_values(|n: String| n@).push(name@));
                names.push(name);
            }
            k = k + 1;
        }
        assert(fv.take(fields.len() as int) == fv);
        names
    }
}

/// Inserts a property by name: an existing property of that name keeps its
/// place and takes the new schema; otherwise the property is appended.
fn insert_property(map: &mut Vec<(String, SchemaObject)>, name: String, schema: SchemaObject)
    ensures
        properties_view(final(map)@) == map_insert(properties_view(old(map)@), name@, schema_object_view(schema)),
{
    let ghost before = properties_view(map@);
    proof {
        lemma_properties_view(map@);
        lemma_key_position(before, name@);
    }
    let mut i: usize = 0;
    while i < map.len()
        invariant
            i <= map.len(),
            map@ == old(map)@,
            before == properties_view(map@),
            before == map@.map_values(|e: (String, SchemaObject)| (e.0@, schema_object_view(e.1))),
            forall|j: int| 0 <= j < i ==> before[j].0 != name@,
        decreases map.len() - i,
    {
        if map[i].0 == name {
            let key = map[i].0.clone();
            let ghost sv = schema_object_view(schema);
            map.set(i, (key, schema));
            proof {
                lemma_key_position(before, name@);
                assert(before[i as int].0 == name@);
                lemma_properties_view(map@);
                assert(key_position(before, name@) == i);
                assert(map@.map_values(|e: (String, SchemaObject)| (e.0@, schema_object_view(e.1)))
                    =~= before.update(i as int, (before[i as int].0, sv)));
            }
            return;
        }
        i = i + 1;
    }
    let ghost sv = schema_object_view(schema);
    map.push((name, schema));
    proof {
        lemma_key_position(before, name@);
        lemma_properties_view(map@);
        assert(key_position(before, name@) < 0);
        assert(map@.map_values(|e: (String, SchemaObject)| (e.0@, schema_object_view(e.1))) =~= before.push((name@, sv)));
    }
}

/// One more element read and mapped: the mapped sequence grows by the mapped element.
proof fn lemma_map_step<A, B, C>(done: Seq<A>, x: A, f: spec_fn(A) -> C, src: Seq<B>, k: int, g: spec_fn(B) -> C)
    requires
        0 <= k < src.len(),
        done.map_values(f) == src.take(k).map_values(g),
        f(x) == g(src[k]),
    ensures
        done.push(x).map_values(f) == src.take(k + 1).map_values(g),
{
    assert(done.len() == done.map_values(f).len());
    let lhs = done.push(x).map_values(f);
    let rhs = src.take(k + 1).map_values(g);
    assert(lhs.len() == rhs.len());
    assert forall|i: int| 0 <= i < lhs.len() implies lhs[i] == rhs[i] by {
        if i < done.len() {
            assert(done.push(x)[i] == done[i]);
            assert(done.map_values(f)[i] == f(done[i]));
            assert(src.take(k).map_values(g)[i] == g(src.take(k)[i]));
            assert(src.take(k)[i] == src[i]);
            assert(src.take(k + 1)[i] == src[i]);
        } else {
            assert(done.push(x)[i] == x);
            assert(src.take(k + 1)[i] == src[k]);
        }
    }
    assert(lhs =~= rhs);
}

fn reference_or_schema(r: &ReferenceOr) -> (s: SchemaOrReference)
    requires
        reference_or_ok(reference_or_view(*r)),
    ensures
        schema_or_reference_view(s) == gen_reference_or(reference_or_view(*r)),
{
    match r {
        ReferenceOr::Reference(reference) => SchemaOrReference::Reference(schema_path(&reference.identifier)),
        ReferenceOr::Actual(definition) => SchemaOrReference::Item(definition_schema(definition)),
    }
}

/// Inserts a component schema by name: an existing schema of that name keeps
/// its place and takes the new value; otherwise the schema is appended.
fn insert_schema(map: &mut Vec<(String, SchemaOrReference)>, name: String, schema: SchemaOrReference)
    ensures
        named_schemas_view(final(map)@) == map_insert(named_schemas_view(old(map)@), name@, schema_or_reference_view(schema)),
{
    let ghost before = named_schemas_view(map@);
    let mut i: usize = 0;
    while i < map.len()
        invariant
            i <= map.len(),
            map@ == old(map)@,
            before == named_schemas_view(map@),
            forall|j: int| 0 <= j < i ==> before[j].0 != name@,
        decreases map.len() - i,
    {
        if map[i].0 == name {
            let key = map[i].0.clone();
            let ghost sv = schema_or_reference_view(schema);
            map.set(i, (key, schema));
            proof {
                lemma_key_position(before, name@);
                assert(before[i as int].0 == name@);
                assert(key_position(before, name@) == i);
                assert(named_schemas_view(map@) =~= before.update(i as int, (before[i as int].0, sv)));
            }
            return;
        }
        i = i + 1;
    }
    let ghost sv = schema_or_reference_view(schema);
    map.push((name, schema));
    proof {
        lemma_key_position(before, name@);
        assert(key_position(before, name@) < 0);
        assert(named_schemas_view(map@) =~= before.push((name@, sv)));
    }
}

/// The component schemas of a document.
fn generate_schemas(doc: &Document) -> (map: Vec<(String, SchemaOrReference)>)
    requires
        forall|i: int| 0 <= i < document_view(*doc).schemas.len()
            ==> reference_or_ok(#[trigger] document_view(*doc).schemas[i].definition),
    ensures
        named_schemas_view(map@) == gen_schemas(document_view(*doc).schemas),
{
    let ghost sv = schemas_view(doc.schemas@);
    let mut map: Vec<(String, SchemaOrReference)> = Vec::new();
    assert(named_schemas_view(map@) =~= gen_schemas(sv.take(0)));
    assert forall|i: int| 0 <= i < sv.len() implies reference_or_ok(#[trigger] sv[i].definition) by {
        assert(sv[i] == document_view(*doc).schemas[i]);
    }
    let mut k: usize = 0;
    while k < doc.schemas.len()
        invariant
            k <= doc.schemas.len(),
            sv == schemas_view(doc.schemas@),
            sv == document_view(*doc).schemas,
            forall|i: int| 0 <= i < sv.len() ==> reference_or_ok(#[trigger] sv[i].definition),
            named_schemas_view(map@) == gen_schemas(sv.take(k as int)),
        decreases doc.schemas.len() - k,
    {
        assert(sv.take(k + 1).drop_last() == sv.take(k as int));
        assert(sv.take(k + 1).last() == sv[k as int]);
        assert(reference_or_ok(sv[k as int].definition));
        let schema = &doc.schemas[k];
        let value = reference_or_schema(&schema.definition);
        insert_schema(&mut map, schema.identifier.clone(), value);
        k = k + 1;
    }
    assert(sv.take(doc.schemas.len() as int) == sv);
    map
}

/// The parameters of an operation.
fn openapi_parameters(endpoint: &Endpoint) -> (result: Vec<ApiParameter>)
    requires
        forall|i: int| 0 <= i < endpoint_view(*endpoint).parameters.len()
            ==> parameter_ok(#[trigger] endpoint_view(*endpoint).parameters[i]),
    ensures
        result@.map_values(|p: ApiParameter| api_parameter_view(p))
            == endpoint_view(*endpoint).parameters.map_values(|p: ParameterV| gen_parameter(p)),
{
    let parameters = endpoint.parameters();
    let ghost pv = endpoint_view(*endpoint).parameters;
    let mut result: Vec<ApiParameter> = Vec::new();
    let mut k: usize = 0;
    while k < parameters.len()
        invariant
            k <= parameters.len(),
            pv == endpoint_view(*endpoint).parameters,
            pv.len() == parameters.len(),
            forall|i: int| 0 <= i < pv.len() ==> pv[i] == parameter_view(#[trigger] parameters@[i]),
            forall|i: int| 0 <= i < pv.len() ==> parameter_ok(#[trigger] pv[i]),
            result@.map_values(|p: ApiParameter| api_parameter_view(p))
                == pv.take(k as int).map_values(|p: ParameterV| gen_parameter(p)),
        decreases parameters.len() - k,
    {
        let parameter = &parameters[k];
        assert(parameter_ok(pv[k as int]));
        let name = parameter.name().clone();
        let schema = reference_or_schema(parameter.kind());
        let item = match parameter.location() {
            crate::ast::ParameterLocation::Path => ApiParameter::Path { name, schema },
            _ => ApiParameter::Query { name, schema },
        };
        assert(api_parameter_view(item) == gen_parameter(pv[k as int]));
        proof {
            lemma_map_step(result@, item, |p: ApiParameter| api_parameter_view(p), pv, k as int, |p: ParameterV| gen_parameter(p));
        }
        result.push(item);
        k = k + 1;
    }
    assert(pv.take(parameters.len() as int) == pv);
    result
}

/// The bodies of a response.
fn to_content(map: &Responses) -> (result: Vec<(String, SchemaOrReference)>)
    requires
        forall|j: int| 0 <= j < responses_view(*map).len() ==> reference_or_ok(#[trigger] responses_view(*map)[j].1),
    ensures
        named_schemas_view(result@) == gen_content(responses_view(*map)),
{
    let ghost cv = responses_view(*map);
    let n = content_count(map);
    let mut result: Vec<(String, SchemaOrReference)> = Vec::new();
    let mut k: usize = 0;
    while k < n
        invariant
            k <= n,
            n == content_entries(*map).len(),
            cv == responses_view(*map),
            forall|j: int| 0 <= j < cv.len() ==> reference_or_ok(#[trigger] cv[j].1),
            named_schemas_view(result@) == gen_content(cv.take(k as int)),
        decreases n - k,
    {
        let (media_type, definition) = match content_at(map, k) {
            Some(entry) => entry,
            None => return result,
        };
        assert(reference_or_ok(cv[k as int].1));
        let schema = reference_or_schema(definition);
        let entry = (media_type.clone(), schema);
        assert((entry.0@, schema_or_reference_view(entry.1)) == (cv[k as int].0, gen_reference_or(cv[k as int].1)));
        proof {
            lemma_map_step(
                result@,
                entry,
                |e: (String, SchemaOrReference)| (e.0@, schema_or_reference_view(e.1)),
                cv,
                k as int,
                |e: (Seq<char>, RefOrV)| (e.0, gen_reference_or(e.1)),
            );
        }
        result.push(entry);
        k = k + 1;
    }
    assert(cv.take(n as int) == cv);
    result
}

/// The responses of an operation, by HTTP code.
fn openapi_responses(endpoint: &Endpoint) -> (result: Vec<(u16, Response)>)
    requires
        forall|i: int, j: int|
            0 <= i < endpoint_view(*endpoint).responses.len() && 0 <= j < endpoint_view(*endpoint).responses[i].1.len()
                ==> reference_or_ok(#[trigger] endpoint_view(*endpoint).responses[i].1[j].1),
    ensures
        result@.map_values(|r: (u16, Response)| (r.0, response_view(r.1))) == gen_responses(endpoint_view(*endpoint).responses),
{
    let responses = endpoint.responses();
    let ghost rv = endpoint_view(*endpoint).responses;
    let n = response_count(responses);
    let mut result: Vec<(u16, Response)> = Vec::new();
    let mut k: usize = 0;
    while k < n
        invariant
            k <= n,
            n == response_entries(*responses).len(),
            rv == response_entries_view(response_entries(*responses)),
            forall|i: int, j: int| 0 <= i < rv.len() && 0 <= j < rv[i].1.len() ==> reference_or_ok(#[trigger] rv[i].1[j].1),
            result@.map_values(|r: (u16, Response)| (r.0, response_view(r.1))) == gen_responses(rv.take(k as int)),
        decreases n - k,
    {
        let (http_code, media_responses) = match response_at(responses, k) {
            Some(entry) => entry,
            None => return result,
        };
        assert forall|j: int| 0 <= j < responses_view(*media_responses).len()
            implies reference_or_ok(#[trigger] responses_view(*media_responses)[j].1) by {
            assert(rv[k as int].1 == responses_view(*media_responses));
            assert(reference_or_ok(rv[k as int].1[j].1));
        }
        let response = Response { content: to_content(media_responses) };
        let entry = (*http_code, response);
        assert((entry.0, response_view(entry.1)) == (rv[k as int].0, ResponseV { content: gen_content(rv[k as int].1) }));
        proof {
            lemma_map_step(
                result@,
                entry,
                |r: (u16, Response)| (r.0, response_view(r.1)),
                rv,
                k as int,
                |r: (u16, Seq<(Seq<char>, RefOrV)>)| (r.0, ResponseV { content: gen_content(r.1) }),
            );
        }
        result.push(entry);
        k = k + 1;
    }
    assert(rv.take(n as int) == rv);
    result
}

fn generate_endpoint(endpoint: &Endpoint) -> (operation: Operation)
    requires
        endpoint_ok(endpoint_view(*endpoint)),
    ensures
        operation_view(operation) == gen_endpoint(endpoint_view(*endpoint)),
{
    Operation {
        operation_id: endpoint.operation_id().clone(),
        parameters: openapi_parameters(endpoint),
        responses: openapi_responses(endpoint),
    }
}

proof fn lemma_map_get_endpoint_view(es: Seq<(HttpMethod, Endpoint)>, k: HttpMethod)
    ensures
        map_get(endpoint_entries_view(es), k) == match map_get(es, k) {
            Some(e) => Some(endpoint_view(e)),
            None => None::<EndpointV>,
        },
{
    let ws = endpoint_entries_view(es);
    assert forall|i: int| 0 <= i < es.len() implies #[trigger] es[i].0 == ws[i].0 by {}
    lemma_key_position_same_keys(es, ws, k);
    lemma_key_position(es, k);
}

/// The path item of a path: the operation of its `GET` endpoint.
fn generate_path(path: &Path) -> (item: PathItem)
    requires
        path_ok(path_view(*path)),
    ensures
        path_item_view(item) == gen_path(path_view(*path)),
{
    proof {
        lemma_map_get_endpoint_view(endpoint_entries(path.spec_endpoints()), HttpMethod::Get);
    }
    let get = match endpoint_get(path.endpoints(), &HttpMethod::Get) {
        Some(endpoint) => Some(generate_endpoint(endpoint)),
        None => None,
    };
    PathItem { get }
}

fn generate_api_paths(api: &API) -> (paths: Vec<(String, PathItem)>)
    requires
        api_ok(api_view(*api)),
    ensures
        path_items_view(paths@) == gen_api_paths(api_view(*api)),
{
    let map = api.paths();
    let ghost pv = api_view(*api).paths;
    let n = path_count(map);
    let mut paths: Vec<(String, PathItem)> = Vec::new();
    let mut k: usize = 0;
    while k < n
        invariant
            k <= n,
            n == path_entries(*map).len(),
            pv == path_entries_view(path_entries(*map)),
            forall|i: int| 0 <= i < pv.len() ==> path_ok(#[trigger] pv[i].1),
            path_items_view(paths@) == pv.take(k as int).map_values(|p: (Seq<char>, PathV)| (p.0, gen_path(p.1))),
        decreases n - k,
    {
        let (url, path) = match path_at(map, k) {
            Some(entry) => entry,
            None => return paths,
        };
        assert(path_ok(pv[k as int].1));
        let entry = (url.clone(), generate_path(path));
        assert((entry.0@, path_item_view(entry.1)) == (pv[k as int].0, gen_path(pv[k as int].1)));
        proof {
            lemma_map_step(
                paths@,
                entry,
                |e: (String, PathItem)| (e.0@, path_item_view(e.1)),
                pv,
                k as int,
                |p: (Seq<char>, PathV)| (p.0, gen_path(p.1)),
            );
        }
        paths.push(entry);
        k = k + 1;
    }
    assert(pv.take(n as int) == pv);
    paths
}

fn generate_api(doc: &Document, api: &API) -> (open_api: OpenApi)
    requires
        generable(document_view(*doc)),
        document_view(*doc).apis.len() > 0,
        api_ok(api_view(*api)),
    ensures
        open_api_view(open_api) == gen_api(document_view(*doc), api_view(*api)),
{
    OpenApi { openapi: String::from_str("3.0.3"), paths: generate_api_paths(api), schemas: generate_schemas(doc) }
}

/// The OpenAPI documents of a document, one per API, in order. The document
/// must be one the generator handles (see `generable`).
pub fn generate(doc: &Document) -> (apis: Vec<OpenApi>)
    requires
        generable(document_view(*doc)),
    ensures
        open_apis_view(apis@) == gen_document(document_view(*doc)),
{
    let ghost dv = document_view(*doc);
    let mut apis: Vec<OpenApi> = Vec::new();
    let mut k: usize = 0;
    while k < doc.apis.len()
        invariant
            k <= doc.apis.len(),
            dv == document_view(*doc),
            generable(dv),
            open_apis_view(apis@) == dv.apis.take(k as int).map_values(|a: ApiV| gen_api(dv, a)),
        decreases doc.apis.len() - k,
    {
        assert(dv.apis[k as int] == api_view(doc.apis@[k as int]));
        assert(api_ok(dv.apis[k as int]));
        let open_api = generate_api(doc, &doc.apis[k]);
        proof {
            lemma_map_step(apis@, open_api, |o: OpenApi| open_api_view(o), dv.apis, k as int, |a: ApiV| gen_api(dv, a));
        }
        apis.push(open_api);
        k = k + 1;
    }
    assert(dv.apis.take(doc.apis.len() as int) == dv.apis);
    apis
}

// ---------------------------------------------------------------------------
// Checking that a document is one the generator handles.
// ---------------------------------------------------------------------------

proof fn lemma_fields_ok_prefix(fields: Seq<FieldV>, k: int)
    requires
        0 <= k < fields.len(),
        fields_ok(fields.take(k)),
        fields[k].definition matches RefOrV::Actual(d) ==> definition_ok(d),
    ensures
        fields_ok(fields.take(k + 1)),
{
    assert(fields.take(k + 1).drop_last() == fields.take(k));
    assert(fields.take(k + 1).last() == fields[k]);
}

fn primitive_generable(p: &Primitive) -> (b: bool)
    ensures
        b == primitive_ok(primitive_view(*p)),
{
    match (p.kind(), p.format()) {
        (Kind::String, Some(crate::ast::Format::String(sf))) => match sf {
            StringFormat::Date | StringFormat::DateTime | StringFormat::Password | StringFormat::Byte
            | StringFormat::Binary => true,
            _ => false,
        },
        _ => true,
    }
}

fn definition_generable(d: &Definition) -> (b: bool)
    ensures
        b == definition_ok(definition_view(*d)),
    decreases definition_size(definition_view(*d)),
{
    match d {
        Definition::Primitive(p) => primitive_generable(p),
        Definition::Array(_) => true,
        Definition::Object(fields) => {
            let ghost fv = fields_view(fields@);
            proof {
                lemma_fields_view(fields@);
            }
            assert(fv.take(0) =~= Seq::<FieldV>::empty());
            let mut k: usize = 0;
            while k < fields.len()
                invariant
                    k <= fields.len(),
                    fv == fields_view(fields@),
                    fv == fields@.map_values(|f: Field| field_view(f)),
                    definition_size(definition_view(*d)) == 1 + fields_size(fv),
                    definition_view(*d) == DefinitionV::Object(fv),
                    fields_ok(fv.take(k as int)),
                decreases fields.len() - k,
            {
                proof {
                    lemma_field_smaller(fv, k as int);
                }
                assert(fv[k as int] == field_view(fields@[k as int]));
                match fields[k].definition() {
                    ReferenceOr::Actual(inner) => {
                        assert(fv[k as int].definition == RefOrV::Actual(definition_view(*inner)));
                        if !definition_generable(inner) {
                            proof {
                                if fields_ok(fv) {
                                    lemma_fields_ok_each(fv, k as int);
                                }
                            }
                            assert(!definition_ok(definition_view(*d)));
                            return false;
                        }
                    },
                    ReferenceOr::Reference(_) => {},
                }
                proof {
                    lemma_fields_ok_prefix(fv, k as int);
                }
                k = k + 1;
            }
            assert(fv.take(fields.len() as int) == fv);
            true
        },
    }
}

fn reference_or_generable(r: &ReferenceOr) -> (b: bool)
    ensures
        b == reference_or_ok(reference_or_view(*r)),
{
    match r {
        ReferenceOr::Actual(d) => definition_generable(d),
        ReferenceOr::Reference(_) => true,
    }
}

fn endpoint_generable(endpoint: &Endpoint) -> (b: bool)
    ensures
        b == endpoint_ok(endpoint_view(*endpoint)),
{
    let ghost ev = endpoint_view(*endpoint);
    let parameters = endpoint.parameters();
    let mut k: usize = 0;
    while k < parameters.len()
        invariant
            k <= parameters.len(),
            ev == endpoint_view(*endpoint),
            ev.parameters.len() == parameters.len(),
            forall|i: int| 0 <= i < ev.parameters.len() ==> ev.parameters[i] == parameter_view(#[trigger] parameters@[i]),
            forall|i: int| 0 <= i < k ==> parameter_ok(#[trigger] ev.parameters[i]),
        decreases parameters.len() - k,
    {
        let parameter = &parameters[k];
        let located = match parameter.location() {
            crate::ast::ParameterLocation::Query | crate::ast::ParameterLocation::Path => true,
            _ => false,
        };
        if !located || !reference_or_generable(parameter.kind()) {
            assert(!parameter_ok(ev.parameters[k as int]));
            return false;
        }
        k = k + 1;
    }
    let responses = endpoint.responses();
    let n = response_count(responses);
    let mut k: usize = 0;
    while k < n
        invariant
            k <= n,
            n == response_entries(*responses).len(),
            ev == endpoint_view(*endpoint),
            ev.responses == response_entries_view(response_entries(*responses)),
            forall|i: int| 0 <= i < ev.parameters.len() ==> parameter_ok(#[trigger] ev.parameters[i]),
            forall|i: int, j: int| 0 <= i < k && 0 <= j < ev.responses[i].1.len() ==> reference_or_ok(#[trigger] ev.responses[i].1[j].1),
        decreases n - k,
    {
        let (_code, media_responses) = match response_at(responses, k) {
            Some(entry) => entry,
            None => return true,
        };
        let ghost cv = responses_view(*media_responses);
        assert(ev.responses[k as int].1 == cv);
        let m = content_count(media_responses);
        let mut j: usize = 0;
        while j < m
            invariant
                j <= m,
                m == content_entries(*media_responses).len(),
                cv == responses_view(*media_responses),
                k < ev.responses.len(),
                ev == endpoint_view(*endpoint),
                ev.responses[k as int].1 == cv,
                forall|i: int| 0 <= i < ev.parameters.len() ==> parameter_ok(#[trigger] ev.parameters[i]),
                forall|i: int, jj: int| 0 <= i < k && 0 <= jj < ev.responses[i].1.len() ==> reference_or_ok(#[trigger] ev.responses[i].1[jj].1),
                forall|jj: int| 0 <= jj < j ==> reference_or_ok(#[trigger] cv[jj].1),
            decreases m - j,
        {
            let (_media, definition) = match content_at(media_responses, j) {
                Some(entry) => entry,
                None => return true,
            };
            assert(cv[j as int].1 == reference_or_view(*definition));
            if !reference_or_generable(definition) {
                assert(!reference_or_ok(ev.responses[k as int].1[j as int].1));
                return false;
            }
            j = j + 1;
        }
        assert forall|i: int, jj: int| 0 <= i < k + 1 && 0 <= jj < ev.responses[i].1.len()
            implies reference_or_ok(#[trigger] ev.responses[i].1[jj].1) by {
            if i == k {
                assert(ev.responses[i].1[jj] == cv[jj]);
            }
        }
        k = k + 1;
    }
    true
}

fn path_generable(path: &Path) -> (b: bool)
    ensures
        b == path_ok(path_view(*path)),
{
    proof {
        lemma_map_get_endpoint_view(endpoint_entries(path.spec_endpoints()), HttpMethod::Get);
    }
    match endpoint_get(path.endpoints(), &HttpMethod::Get) {
        Some(endpoint) => endpoint_generable(endpoint),
        None => true,
    }
}

fn api_generable(api: &API) -> (b: bool)
    ensures
        b == api_ok(api_view(*api)),
{
    let map = api.paths();
    let ghost pv = api_view(*api).paths;
    let n = path_count(map);
    let mut k: usize = 0;
    while k < n
        invariant
            k <= n,
            n == path_entries(*map).len(),
            pv == path_entries_view(path_entries(*map)),
            pv == api_view(*api).paths,
            forall|i: int| 0 <= i < k ==> path_ok(#[trigger] pv[i].1),
        decreases n - k,
    {
        let (_url, path) = match path_at(map, k) {
            Some(entry) => entry,
            None => return true,
        };
        if !path_generable(path) {
            assert(!path_ok(pv[k as int].1));
            return false;
        }
        k = k + 1;
    }
    true
}

/// Whether the generator handles the document (see `generable`): whether
/// `generate` may be called on it.
pub fn can_generate(doc: &Document) -> (b: bool)
    ensures
        b == generable(document_view(*doc)),
{
    let ghost dv = document_view(*doc);
    if doc.apis.len() > 0 {
        let mut k: usize = 0;
        while k < doc.schemas.len()
            invariant
                k <= doc.schemas.len(),
                dv == document_view(*doc),
                doc.apis.len() > 0,
                dv.apis.len() == doc.apis.len(),
                forall|i: int| 0 <= i < k ==> reference_or_ok(#[trigger] dv.schemas[i].definition),
            decreases doc.schemas.len() - k,
        {
            assert(dv.schemas[k as int] == schema_view(*doc.schemas@[k as int]));
            if !reference_or_generable(&doc.schemas[k].definition) {
                assert(!reference_or_ok(dv.schemas[k as int].definition));
                return false;
            }
            k = k + 1;
        }
    }
    let mut k: usize = 0;
    while k < doc.apis.len()
        invariant
            k <= doc.apis.len(),
            dv == document_view(*doc),
            dv.apis.len() > 0 ==> forall|i: int| 0 <= i < dv.schemas.len() ==> reference_or_ok(#[trigger] dv.schemas[i].definition),
            forall|i: int| 0 <= i < k ==> api_ok(#[trigger] dv.apis[i]),
        decreases doc.apis.len() - k,
    {
        assert(dv.apis[k as int] == api_view(doc.apis@[k as int]));
        if !api_generable(&doc.apis[k]) {
            assert(!api_ok(dv.apis[k as int]));
            return false;
        }
        k = k + 1;
    }
    true
}

} // verus!
