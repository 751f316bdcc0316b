use indexmap::IndexMap;
use std::rc::Rc;

use spec_tacular::ast::{
    Constraint, Definition, Document, Endpoint, Field, Format, HttpMethod, IntegerFormat, Kind, Parameter,
    ParameterAnnotations, ParameterLocation, Path, Primitive, Schema, StringFormat, API,
};
use spec_tacular::cli::compile;
use spec_tacular::generator::{can_generate, generate};
use spec_tacular::openapi::{ApiParameter, OpenApi, SchemaObject, SchemaOrReference, StringFormatName};
use spec_tacular::parser::parse;
use spec_tacular::util::ReferenceOr;

fn primitive(kind: Kind, format: Option<Format>, constraints: Vec<Constraint>) -> ReferenceOr {
    ReferenceOr::Actual(Definition::Primitive(Primitive::new(kind, format, constraints)))
}

fn field(name: &str, definition: ReferenceOr, required: bool) -> Field {
    Field::new(name.to_string(), definition, required)
}

fn object(fields: Vec<Field>) -> ReferenceOr {
    ReferenceOr::Actual(Definition::Object(fields))
}

fn schema(name: &str, definition: ReferenceOr) -> Rc<Schema> {
    Rc::new(Schema::new(name.to_string(), definition))
}

fn api(name: &str, version: &str) -> API {
    API::new(name.to_string(), version.to_string(), IndexMap::new())
}

fn item(s: &SchemaOrReference) -> &SchemaObject {
    match s {
        SchemaOrReference::Item(o) => o,
        other => panic!("expected a schema, got {:?}", other),
    }
}

fn property<'a>(o: &'a SchemaObject, name: &str) -> &'a SchemaObject {
    match o {
        SchemaObject::Object { properties, .. } => {
            &properties.iter().find(|(n, _)| n == name).unwrap_or_else(|| panic!("no property {name}")).1
        }
        other => panic!("expected an object, got {:?}", other),
    }
}

fn property_names(o: &SchemaObject) -> Vec<&str> {
    match o {
        SchemaObject::Object { properties, .. } => properties.iter().map(|(n, _)| n.as_str()).collect(),
        other => panic!("expected an object, got {:?}", other),
    }
}

fn required_names(o: &SchemaObject) -> Vec<&str> {
    match o {
        SchemaObject::Object { required, .. } => required.iter().map(|n| n.as_str()).collect(),
        other => panic!("expected an object, got {:?}", other),
    }
}

fn compiled(src: &str) -> Vec<OpenApi> {
    match compile(src) {
        Ok(apis) => apis,
        Err(error) => panic!("failed to compile: {:?}", error),
    }
}

#[test]
fn generate_kind_order_id() {
    let doc = Document {
        schemas: vec![schema("OrderId", primitive(Kind::Number, None, vec![Constraint::Maximum(10)]))],
        apis: vec![api("api", "0.0.1")],
    };
    let apis = generate(&doc);
    assert_eq!(apis.len(), 1);
    assert!(apis[0].paths.is_empty());
    assert_eq!(apis[0].schemas.len(), 1);
    assert_eq!(apis[0].schemas[0].0, "OrderId");
    assert_eq!(apis[0].openapi, "3.0.3");
    assert!(matches!(item(&apis[0].schemas[0].1), SchemaObject::Number { format: None, maximum: Some(10) }));
}

#[test]
fn generate_warehouse_schema() {
    let string = || primitive(Kind::String, None, vec![]);
    let address = object(vec![
        field("line1", string(), false),
        field("line2", string(), false),
        field("city", string(), false),
        field("region", string(), false),
        field("postalCode", string(), false),
        field("country", string(), false),
    ]);
    let warehouse = object(vec![
        field("id", string(), false),
        field("code", string(), false),
        field("name", string(), false),
        field("address", address, false),
        field("capacity", primitive(Kind::Integer, Some(Format::Integer(IntegerFormat::Int32)), vec![]), false),
        field("active", primitive(Kind::Boolean, None, vec![]), false),
    ]);
    let doc = Document { schemas: vec![schema("Warehouse", warehouse)], apis: vec![api("api", "0.0.1")] };
    assert!(can_generate(&doc));
    let apis = generate(&doc);
    assert_eq!(apis.len(), 1);
    assert!(apis[0].paths.is_empty());
    assert_eq!(apis[0].schemas.len(), 1);
    assert_eq!(apis[0].schemas[0].0, "Warehouse");
    let w = item(&apis[0].schemas[0].1);
    assert_eq!(property_names(w), vec!["id", "code", "name", "address", "capacity", "active"]);
    assert!(required_names(w).is_empty());
    assert!(matches!(property(w, "id"), SchemaObject::String { format: None, max_length: None }));
    assert!(matches!(
        property(w, "capacity"),
        SchemaObject::Integer { format: Some(IntegerFormat::Int32), maximum: None }
    ));
    assert!(matches!(property(w, "active"), SchemaObject::Boolean));
    let a = property(w, "address");
    assert_eq!(property_names(a), vec!["line1", "line2", "city", "region", "postalCode", "country"]);
    assert!(required_names(a).is_empty());
}

#[test]
fn booking_document_generates_its_operations() {
    let apis = compiled(
        "
        type ContainerId: string
        schema Container { id: ContainerId tare: integer? gross: integer? }
        schema Booking { delivery: string#date address: string containers: [Container] }
        schema Problem { description: string }
        api \"container-api\" \"0.0.1\" {
          path \"/containers\" {
            GET listContainers(@Query @Max(100) limit: integer) { 200: Container 401: Problem }
          }
          path \"/booking/{id}\" {
            GET getBooking(@Path id: string) { 200: Booking 401: Problem }
          }
        }
        ",
    );
    assert_eq!(apis.len(), 1);
    let doc = &apis[0];

    let names: Vec<&str> = doc.schemas.iter().map(|(n, _)| n.as_str()).collect();
    assert_eq!(names, vec!["ContainerId", "Container", "Booking", "Problem"]);
    let container = item(&doc.schemas[1].1);
    assert_eq!(property_names(container), vec!["tare", "gross"]);
    assert_eq!(required_names(container), vec!["id"]);
    let booking = item(&doc.schemas[2].1);
    assert_eq!(required_names(booking), vec!["delivery", "address", "containers"]);
    assert!(matches!(
        property(booking, "delivery"),
        SchemaObject::String { format: Some(StringFormatName::Date), max_length: None }
    ));
    match property(booking, "containers") {
        SchemaObject::Array { items } => assert_eq!(items, "#/components/schemas/Container"),
        other => panic!("expected an array, got {:?}", other),
    }

    let urls: Vec<&str> = doc.paths.iter().map(|(u, _)| u.as_str()).collect();
    assert_eq!(urls, vec!["/containers", "/booking/{id}"]);
    let list = doc.paths[0].1.get.as_ref().unwrap();
    assert_eq!(list.operation_id, "listContainers");
    assert_eq!(list.parameters.len(), 1);
    match &list.parameters[0] {
        ApiParameter::Query { name, schema } => {
            assert_eq!(name, "limit");
            assert!(matches!(item(schema), SchemaObject::Integer { format: None, maximum: None }));
        }
        other => panic!("expected a query parameter, got {:?}", other),
    }
    let codes: Vec<u16> = list.responses.iter().map(|(c, _)| *c).collect();
    assert_eq!(codes, vec![200, 401]);
    let content = &list.responses[0].1.content;
    assert_eq!(content.len(), 1);
    assert_eq!(content[0].0, "application/json");
    match &content[0].1 {
        SchemaOrReference::Reference(r) => assert_eq!(r, "#/components/schemas/Container"),
        other => panic!("expected a reference, got {:?}", other),
    }

    let get = doc.paths[1].1.get.as_ref().unwrap();
    assert_eq!(get.operation_id, "getBooking");
    match &get.parameters[0] {
        ApiParameter::Path { name, schema } => {
            assert_eq!(name, "id");
            assert!(matches!(item(schema), SchemaObject::String { format: None, max_length: None }));
        }
        other => panic!("expected a path parameter, got {:?}", other),
    }
}

#[test]
fn one_document_per_api_each_with_all_schemas() {
    let apis = compiled("type A: string\napi \"one\" \"1\" { }\napi \"two\" \"2\" { }\ntype B: boolean");
    assert_eq!(apis.len(), 2);
    for doc in &apis {
        let names: Vec<&str> = doc.schemas.iter().map(|(n, _)| n.as_str()).collect();
        assert_eq!(names, vec!["A", "B"]);
        assert!(doc.paths.is_empty());
    }
}

#[test]
fn no_api_gives_no_document() {
    assert!(compiled("type A: string#uuid").is_empty());
}

#[test]
fn last_maximum_wins() {
    let doc = Document {
        schemas: vec![
            schema("S", primitive(Kind::String, None, vec![Constraint::Maximum(3), Constraint::Minimum(1), Constraint::Maximum(7)])),
            schema("I", primitive(Kind::Integer, None, vec![Constraint::Maximum(9), Constraint::Maximum(2)])),
            schema("B", primitive(Kind::Boolean, None, vec![Constraint::Maximum(9)])),
        ],
        apis: vec![api("a", "1")],
    };
    let apis = generate(&doc);
    let s = &apis[0].schemas;
    assert!(matches!(item(&s[0].1), SchemaObject::String { format: None, max_length: Some(7) }));
    assert!(matches!(item(&s[1].1), SchemaObject::Integer { format: None, maximum: Some(2) }));
    assert!(matches!(item(&s[2].1), SchemaObject::Boolean));
}

#[test]
fn component_schema_of_a_repeated_name_is_the_last_one() {
    let apis = compiled("type A: string\ntype B: boolean\ntype A: integer\napi \"a\" \"1\" { }");
    let s = &apis[0].schemas;
    let names: Vec<&str> = s.iter().map(|(n, _)| n.as_str()).collect();
    assert_eq!(names, vec!["A", "B"]);
    assert!(matches!(item(&s[0].1), SchemaObject::Integer { .. }));
}

#[test]
fn schema_reference_is_rendered_as_a_reference() {
    let apis = compiled("type A: string\ntype B: A\napi \"a\" \"1\" { }");
    match &apis[0].schemas[1].1 {
        SchemaOrReference::Reference(r) => assert_eq!(r, "#/components/schemas/A"),
        other => panic!("expected a reference, got {:?}", other),
    }
}

#[test]
fn only_get_operations_are_rendered() {
    let apis = compiled("api \"a\" \"1\" { path \"/x\" { POST make() { } } path \"/y\" { PUT put() { } GET read() { } } }");
    let paths = &apis[0].paths;
    assert!(paths[0].1.get.is_none());
    assert_eq!(paths[1].1.get.as_ref().unwrap().operation_id, "read");
}

#[test]
fn format_of_another_kind_is_dropped() {
    let apis = compiled("type N: integer#date\ntype S: string#int32\napi \"a\" \"1\" { }");
    assert!(matches!(item(&apis[0].schemas[0].1), SchemaObject::Integer { format: None, maximum: None }));
    assert!(matches!(item(&apis[0].schemas[1].1), SchemaObject::String { format: None, max_length: None }));
}

#[test]
fn string_formats_without_openapi_name_cannot_be_generated() {
    let doc = parse("type Id: string#uuid\napi \"a\" \"1\" { }").unwrap();
    assert!(!can_generate(&doc));
    let doc = parse("schema S { id: string#email }\napi \"a\" \"1\" { }").unwrap();
    assert!(!can_generate(&doc));
    let doc = parse("type Id: string#uuid").unwrap();
    assert!(can_generate(&doc));
    let doc = parse("type Id: string#date-time\napi \"a\" \"1\" { }").unwrap();
    assert!(can_generate(&doc));
}

#[test]
fn header_parameter_cannot_be_generated() {
    let header = Parameter::new(
        "token",
        ReferenceOr::Actual(Definition::Primitive(Primitive::new(Kind::String, None, vec![]))),
        ParameterAnnotations::new(ParameterLocation::Header, vec![]),
    );
    let mut endpoints = IndexMap::new();
    endpoints.insert(HttpMethod::Get, Endpoint::new("read".to_string(), vec![header], IndexMap::new()));
    let mut paths = IndexMap::new();
    paths.insert("/x".to_string(), Path::new(endpoints));
    let doc = Document { schemas: vec![], apis: vec![API::new("a".to_string(), "1".to_string(), paths)] };
    assert!(!can_generate(&doc));
}

#[test]
fn cookie_parameter_outside_get_is_generated() {
    let cookie = Parameter::new(
        "session",
        ReferenceOr::Actual(Definition::Primitive(Primitive::new(Kind::String, None, vec![]))),
        ParameterAnnotations::new(ParameterLocation::Cookie, vec![]),
    );
    let mut endpoints = IndexMap::new();
    endpoints.insert(HttpMethod::Post, Endpoint::new("make".to_string(), vec![cookie], IndexMap::new()));
    let mut paths = IndexMap::new();
    paths.insert("/x".to_string(), Path::new(endpoints));
    let doc = Document { schemas: vec![], apis: vec![API::new("a".to_string(), "1".to_string(), paths)] };
    assert!(can_generate(&doc));
    let apis = generate(&doc);
    assert!(apis[0].paths[0].1.get.is_none());
}

#[test]
fn custom_string_format_is_refused_by_the_generator() {
    let doc = Document {
        schemas: vec![schema(
            "Country",
            primitive(Kind::String, Some(Format::String(StringFormat::Custom("x-iso".to_string()))), vec![]),
        )],
        apis: vec![api("a", "1")],
    };
    assert!(!can_generate(&doc));
}

fn object_references<'a>(o: &'a SchemaObject, out: &mut Vec<&'a str>) {
    match o {
        SchemaObject::Array { items } => out.push(items),
        SchemaObject::Object { properties, .. } => {
            for (_, p) in properties {
                object_references(p, out);
            }
        }
        _ => {}
    }
}

fn references<'a>(s: &'a SchemaOrReference, out: &mut Vec<&'a str>) {
    match s {
        SchemaOrReference::Reference(r) => out.push(r),
        SchemaOrReference::Item(o) => object_references(o, out),
    }
}

#[test]
fn every_generated_reference_names_a_component() {
    let apis = compiled(
        "
        type Id: string
        schema Tag { id: Id labels: [Id] }
        schema Item { id: Id tags: [Tag] inner: [Id]? }
        schema Problem { description: string }
        api \"a\" \"1\" {
          path \"/items/{id}\" {
            GET getItem(@Path id: Id, @Query filter: [Tag]) { 200: Item 404: Problem 500: [Problem] }
          }
        }
        ",
    );
    let doc = &apis[0];
    let names: Vec<&str> = doc.schemas.iter().map(|(n, _)| n.as_str()).collect();
    let mut refs = Vec::new();
    for (_, s) in &doc.schemas {
        references(s, &mut refs);
    }
    for (_, item) in &doc.paths {
        if let Some(op) = &item.get {
            for p in &op.parameters {
                match p {
                    ApiParameter::Query { schema, .. } | ApiParameter::Path { schema, .. } => references(schema, &mut refs),
                }
            }
            for (_, response) in &op.responses {
                for (_, s) in &response.content {
                    references(s, &mut refs);
                }
            }
        }
    }
    assert_eq!(refs.len(), 8);
    for r in refs {
        let name = r.strip_prefix("#/components/schemas/").expect("a component reference");
        assert!(names.contains(&name), "{r} names no component");
    }
}

#[test]
fn constraints_apply_in_order() {
    let first = vec![Constraint::Maximum(4)];
    let second = vec![Constraint::Minimum(1), Constraint::Maximum(8)];
    let joined: Vec<Constraint> = first.iter().chain(second.iter()).copied().collect();
    let doc = Document {
        schemas: vec![
            schema("Joined", primitive(Kind::Number, None, joined)),
            schema("First", primitive(Kind::Number, None, first)),
        ],
        apis: vec![api("a", "1")],
    };
    let apis = generate(&doc);
    assert!(matches!(item(&apis[0].schemas[0].1), SchemaObject::Number { format: None, maximum: Some(8) }));
    assert!(matches!(item(&apis[0].schemas[1].1), SchemaObject::Number { format: None, maximum: Some(4) }));
}
