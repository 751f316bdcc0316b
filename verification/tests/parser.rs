use spec_tacular::ast::{
    Constraint, Definition, Document, Field, Format, HttpMethod, IntegerFormat, Kind, NumberFormat, ParameterLocation,
    StringFormat,
};
use spec_tacular::parser::{parse, CompileError};
use spec_tacular::util::ReferenceOr;
use std::rc::Rc;

fn parsed(src: &str) -> Document {
    match parse(src) {
        Ok(document) => document,
        Err(error) => panic!("failed to parse: {:?}", error),
    }
}

fn parse_error(src: &str) -> (String, Option<(usize, usize)>) {
    match parse(src) {
        Err(CompileError::Parse(error)) => (error.message, error.span),
        other => panic!("expected a parse error, got {:?}", other),
    }
}

fn syntax_error(src: &str) -> (String, Option<(usize, usize)>) {
    match parse(src) {
        Err(CompileError::Syntax(error)) => (error.message, error.span),
        other => panic!("expected a syntax error, got {:?}", other),
    }
}

fn invalid(src: &str) -> String {
    match parse(src) {
        Err(CompileError::Invalid(message)) => message,
        other => panic!("expected an invalid document, got {:?}", other),
    }
}

fn primitive_of(definition: &ReferenceOr) -> (Kind, Option<Format>, Vec<Constraint>) {
    match definition {
        ReferenceOr::Actual(Definition::Primitive(p)) => (*p.kind(), p.format().clone(), p.constraints().clone()),
        other => panic!("expected a primitive, got {:?}", other),
    }
}

fn reference_name(definition: &ReferenceOr) -> String {
    match definition {
        ReferenceOr::Reference(schema) => schema.identifier.clone(),
        other => panic!("expected a reference, got {:?}", other),
    }
}

fn fields_of(definition: &ReferenceOr) -> &Vec<Field> {
    match definition {
        ReferenceOr::Actual(Definition::Object(fields)) => fields,
        other => panic!("expected an object, got {:?}", other),
    }
}

#[test]
fn empty_file() {
    let src = "";
    let Ok(document) = parse(src) else {
        panic!("failed")
    };
    assert!(document.apis.is_empty());
    assert!(document.schemas.is_empty());
}

#[test]
fn date_type() {
    let document = parsed("type Date: string#date");
    assert!(document.apis.is_empty());
    assert_eq!(document.schemas.len(), 1);
    assert_eq!(document.schemas[0].identifier, "Date");
    let (kind, format, constraints) = primitive_of(&document.schemas[0].definition);
    assert_eq!(kind, Kind::String);
    assert!(matches!(format, Some(Format::String(StringFormat::Date))));
    assert!(constraints.is_empty());
}

#[test]
fn container_schema() {
    let document = parsed(
        "
            type ContainerId: string

            schema Container {
              id: ContainerId
              tare: integer?
              gross: integer?
            }
            ",
    );
    assert!(document.apis.is_empty());
    assert_eq!(document.schemas.len(), 2);
    assert_eq!(document.schemas[0].identifier, "ContainerId");
    let (kind, format, _) = primitive_of(&document.schemas[0].definition);
    assert_eq!(kind, Kind::String);
    assert!(format.is_none());

    assert_eq!(document.schemas[1].identifier, "Container");
    let fields = fields_of(&document.schemas[1].definition);
    assert_eq!(fields.len(), 3);
    assert_eq!(fields[0].name(), "id");
    assert_eq!(reference_name(fields[0].definition()), "ContainerId");
    match fields[0].definition() {
        ReferenceOr::Reference(schema) => assert!(Rc::ptr_eq(schema, &document.schemas[0])),
        other => panic!("expected a reference, got {:?}", other),
    }
    assert!(*fields[0].required());
    assert_eq!(fields[1].name(), "tare");
    assert_eq!(primitive_of(fields[1].definition()).0, Kind::Integer);
    assert!(!*fields[1].required());
    assert_eq!(fields[2].name(), "gross");
    assert_eq!(primitive_of(fields[2].definition()).0, Kind::Integer);
    assert!(!*fields[2].required());
}

#[test]
fn booking_document() {
    let document = parsed(
        "
            type ContainerId: string

            schema Container {
              id: ContainerId
              tare: integer?
              gross: integer?
            }

            schema Booking {
              delivery: string#date
              address: string
              containers: [Container]
            }

            schema Problem {
              description: string
            }

            api \"container-api\" \"0.0.1\" {
              path \"/containers\" {
                GET listContainers(@Query @Max(100) limit: integer) {
                  200: Container
                  401: Problem
                }
              }
              path \"/booking/{id}\" {
                GET getBooking(@Path id: string) {
                  200: Booking
                  401: Problem
                }
              }
            }
            ",
    );
    let names: Vec<&str> = document.schemas.iter().map(|s| s.identifier.as_str()).collect();
    assert_eq!(names, vec!["ContainerId", "Container", "Booking", "Problem"]);

    let booking = fields_of(&document.schemas[2].definition);
    assert_eq!(booking.len(), 3);
    assert_eq!(booking[0].name(), "delivery");
    assert!(matches!(primitive_of(booking[0].definition()).1, Some(Format::String(StringFormat::Date))));
    assert_eq!(booking[1].name(), "address");
    assert_eq!(booking[2].name(), "containers");
    match booking[2].definition() {
        ReferenceOr::Actual(Definition::Array(element)) => {
            assert_eq!(element.identifier, "Container");
            assert!(Rc::ptr_eq(element, &document.schemas[1]));
        }
        other => panic!("expected a list, got {:?}", other),
    }
    assert!(booking.iter().all(|f| *f.required()));

    assert_eq!(document.apis.len(), 1);
    let api = &document.apis[0];
    assert_eq!(api.name(), "container-api");
    assert_eq!(api.version(), "0.0.1");
    let urls: Vec<&str> = api.paths().keys().map(|k| k.as_str()).collect();
    assert_eq!(urls, vec!["/containers", "/booking/{id}"]);

    let list = &api.paths()["/containers"].endpoints()[&HttpMethod::Get];
    assert_eq!(list.operation_id(), "listContainers");
    assert_eq!(list.parameters().len(), 1);
    let limit = &list.parameters()[0];
    assert_eq!(limit.name(), "limit");
    assert_eq!(*limit.location(), ParameterLocation::Query);
    assert_eq!(limit.constraints(), &vec![Constraint::Maximum(100)]);
    assert_eq!(primitive_of(limit.kind()).0, Kind::Integer);
    let codes: Vec<u16> = list.responses().keys().copied().collect();
    assert_eq!(codes, vec![200, 401]);
    assert_eq!(reference_name(&list.responses()[&200u16]["application/json"]), "Container");
    assert_eq!(reference_name(&list.responses()[&401u16]["application/json"]), "Problem");

    let get = &api.paths()["/booking/{id}"].endpoints()[&HttpMethod::Get];
    assert_eq!(get.operation_id(), "getBooking");
    let id = &get.parameters()[0];
    assert_eq!(id.name(), "id");
    assert_eq!(*id.location(), ParameterLocation::Path);
    assert!(id.constraints().is_empty());
    assert_eq!(reference_name(&get.responses()[&200u16]["application/json"]), "Booking");
    for (code, index) in [(200u16, 1), (401u16, 3)] {
        match &list.responses()[&code]["application/json"] {
            ReferenceOr::Reference(schema) => assert!(Rc::ptr_eq(schema, &document.schemas[index])),
            other => panic!("expected a reference, got {:?}", other),
        }
    }
    match &get.responses()[&200u16]["application/json"] {
        ReferenceOr::Reference(schema) => assert!(Rc::ptr_eq(schema, &document.schemas[2])),
        other => panic!("expected a reference, got {:?}", other),
    }
}

#[test]
fn formats_are_read_by_name() {
    let document = parsed(
        "type A: integer#int64\ntype B: number#double\ntype C: number#float\ntype D: string#x-iso-3166\ntype E: string#uuid",
    );
    assert!(matches!(primitive_of(&document.schemas[0].definition).1, Some(Format::Integer(IntegerFormat::Int64))));
    assert!(matches!(primitive_of(&document.schemas[1].definition).1, Some(Format::Number(NumberFormat::Double))));
    assert!(matches!(primitive_of(&document.schemas[2].definition).1, Some(Format::Number(NumberFormat::Float))));
    match primitive_of(&document.schemas[3].definition).1 {
        Some(Format::String(StringFormat::Custom(name))) => assert_eq!(name, "x-iso-3166"),
        other => panic!("expected a custom format, got {:?}", other),
    }
    assert!(matches!(primitive_of(&document.schemas[4].definition).1, Some(Format::String(StringFormat::Uuid))));
}

#[test]
fn unknown_type_is_refused() {
    assert_eq!(invalid("schema A { b: Missing }"), "Missing is not a kown type");
}

#[test]
fn reference_to_later_schema_is_refused() {
    assert_eq!(invalid("type A: B\ntype B: string"), "B is not a kown type");
}

#[test]
fn schema_alias_is_not_an_object() {
    assert_eq!(invalid("schema Name: string"), "Name was not an object");
}

#[test]
fn unknown_format_is_refused() {
    assert_eq!(invalid("type A: string#colour"), "unsupported format: Format(15, 21)");
}

#[test]
fn too_large_maximum_is_refused() {
    let src = "api \"a\" \"1\" { path \"/x\" { GET x(@Max(99999999999999999999999) n: integer) { } } }";
    assert_eq!(invalid(src), "number too large to fit in target type");
}

#[test]
fn too_large_http_code_is_refused() {
    let src = "type A: string\napi \"a\" \"1\" { path \"/x\" { GET x() { 70000: A } } }";
    assert_eq!(invalid(src), "number too large to fit in target type");
}

#[test]
fn maximum_without_value_is_a_parse_error() {
    let src = "api \"a\" \"1\" { path \"/x\" { GET x(@Max n: integer) { } } }";
    assert_eq!(parse_error(src), ("Expected NumberValue but found none".to_string(), None));
}

#[test]
fn list_of_primitive_is_a_parse_error() {
    assert_eq!(parse_error("type L: [string]"), ("Expected Identifier but found Kind".to_string(), Some((9, 15))));
}

#[test]
fn unexpected_character_is_reported_with_its_place() {
    assert_eq!(syntax_error("type X: string$"), ("Unexpected character".to_string(), Some((14, 15))));
}

#[test]
fn unterminated_string_is_reported() {
    assert_eq!(syntax_error("api \"open"), ("Unterminated string".to_string(), Some((4, 9))));
}

#[test]
fn empty_format_is_reported() {
    assert_eq!(syntax_error("type X: string#"), ("Expected Format but found none".to_string(), Some((14, 15))));
}

#[test]
fn missing_identifier_is_reported_with_the_token_found() {
    assert_eq!(syntax_error("type : string"), ("Expected Identifier but found Colon".to_string(), Some((5, 6))));
}

#[test]
fn missing_type_at_end_is_reported_without_place() {
    assert_eq!(syntax_error("type X:"), ("Expected TypeDefinition but found none".to_string(), None));
}

#[test]
fn last_location_annotation_counts() {
    let document = parsed("api \"a\" \"1\" { path \"/x/{n}\" { GET x(@Query @Path @Max(3) @Max(5) @Other n: integer) { } } }");
    let endpoint = &document.apis[0].paths()["/x/{n}"].endpoints()[&HttpMethod::Get];
    let n = &endpoint.parameters()[0];
    assert_eq!(*n.location(), ParameterLocation::Path);
    assert_eq!(n.constraints(), &vec![Constraint::Maximum(3), Constraint::Maximum(5)]);
}

#[test]
fn references_resolve_to_the_first_schema_of_a_name() {
    let document = parsed("type A: string\ntype A: integer\ntype B: A");
    assert_eq!(document.schemas.len(), 3);
    match &document.schemas[2].definition {
        ReferenceOr::Reference(schema) => {
            assert_eq!(schema.identifier, "A");
            assert_eq!(primitive_of(&schema.definition).0, Kind::String);
            assert!(Rc::ptr_eq(schema, &document.schemas[0]));
        }
        other => panic!("expected a reference, got {:?}", other),
    }
}

#[test]
fn repeated_path_keeps_its_place_and_takes_the_last_endpoints() {
    let src = "api \"a\" \"1\" { path \"/x\" { GET first() { } } path \"/y\" { GET y() { } } path \"/x\" { POST second() { } } }";
    let document = parsed(src);
    let paths = document.apis[0].paths();
    let urls: Vec<&str> = paths.keys().map(|k| k.as_str()).collect();
    assert_eq!(urls, vec!["/x", "/y"]);
    let endpoints = paths["/x"].endpoints();
    assert_eq!(endpoints.len(), 1);
    assert_eq!(endpoints[&HttpMethod::Post].operation_id(), "second");
}

#[test]
fn error_places_lie_within_the_text() {
    let sources = [
        "type A: [string#date]",
        "type A: [[B]]",
        "schema S { a: [integer] }",
        "type A: string\napi \"a\" \"1\" { path \"/x\" { GET x(p: [boolean]) { 200: A } } }",
        "type A: string\napi \"a\" \"1\" { path \"/x\" { GET x() { 200: [number#float] } } }",
        "type \u{e9}: string",
        "api \"unterminated",
        "schema S { a: string",
        "type A: string#",
    ];
    for src in sources {
        let length = src.chars().count();
        match parse(src) {
            Err(CompileError::Parse(error)) | Err(CompileError::Syntax(error)) => {
                if let Some((start, end)) = error.span {
                    assert!(start <= end && end <= length, "{src:?}: {start}..{end}");
                }
            }
            other => panic!("expected a parse error for {src:?}, got {other:?}"),
        }
    }
}

#[test]
fn unknown_format_is_placed_in_bytes() {
    let src = "api \"\u{e9}t\u{e9}\" \"1\" { }\ntype A: string#colour";
    let start = src.find("colour").unwrap();
    assert_eq!(start, 35);
    assert_eq!(invalid(src), "unsupported format: Format(35, 41)");
}

#[test]
fn definitions_clone_with_shared_references() {
    let document = parsed("type A: string\nschema S { a: A b: [A] c: integer#int32? }");
    let copy = document.schemas[1].definition.clone();
    let fields = fields_of(&copy);
    assert_eq!(fields.len(), 3);
    match fields[0].definition() {
        ReferenceOr::Reference(schema) => assert!(Rc::ptr_eq(schema, &document.schemas[0])),
        other => panic!("expected a reference, got {:?}", other),
    }
    match fields[1].definition() {
        ReferenceOr::Actual(Definition::Array(schema)) => assert!(Rc::ptr_eq(schema, &document.schemas[0])),
        other => panic!("expected a list, got {:?}", other),
    }
    assert!(matches!(primitive_of(fields[2].definition()).1, Some(Format::Integer(IntegerFormat::Int32))));
    assert!(!*fields[2].required());
    let document_copy = document.schemas[1].as_ref().clone();
    assert_eq!(document_copy.identifier, "S");
}
