use spec_tacular::cli::{can_compile, compile, Args, Commands};
use spec_tacular::lexer::{tokenize, TokenKind};
use spec_tacular::output::{combine_apis, handle_error, may_write_file, output_plan, OutputPlan};
use spec_tacular::parser::CompileError;
use spec_tacular::util::{rule_name, ParseError, ReferenceOr, Rule, Span};
use spec_tacular::ast::{Constraint, Definition, Format, Kind, Primitive, Schema, StringFormat};

#[test]
fn combine_apis_separates_documents() {
    let documents = vec!["openapi: 3.0.0\n".to_string(), "info: {}\n".to_string()];
    assert_eq!(combine_apis(&documents), "---\nopenapi: 3.0.0\n---\ninfo: {}\n");
    assert_eq!(combine_apis(&vec![]), "");
}

#[test]
fn output_goes_to_stdout_a_file_or_one_file_per_api() {
    assert_eq!(output_plan(0, false), OutputPlan::Stdout);
    assert_eq!(output_plan(7, false), OutputPlan::Stdout);
    assert_eq!(output_plan(0, true), OutputPlan::SingleFile);
    assert_eq!(output_plan(2, true), OutputPlan::SingleFile);
    assert_eq!(output_plan(3, true), OutputPlan::FilePerApi);
}

#[test]
fn single_file_is_written_over_a_file_or_nothing() {
    assert!(may_write_file(true, true));
    assert!(may_write_file(false, false));
    assert!(!may_write_file(false, true));
}

#[test]
fn parse_errors_are_reported_other_errors_passed_on() {
    let error = CompileError::Parse(ParseError::none(Rule::Identifier));
    match handle_error("", error) {
        Ok(e) => {
            assert_eq!(e.message, "Expected Identifier but found none");
            assert_eq!(e.span, None);
        }
        Err(other) => panic!("expected a parse error, got {:?}", other),
    }
    match handle_error("", CompileError::Invalid("A is not a kown type".to_string())) {
        Err(CompileError::Invalid(m)) => assert_eq!(m, "A is not a kown type"),
        other => panic!("expected the error back, got {:?}", other),
    }
}

#[test]
fn compile_reports_the_syntax_error() {
    match compile("type : string") {
        Err(CompileError::Syntax(e)) => {
            assert_eq!(e.message, "Expected Identifier but found Colon");
            assert_eq!(e.span, Some((5, 6)));
        }
        other => panic!("expected a syntax error, got {:?}", other),
    }
    assert_eq!(compile("").unwrap().len(), 0);
}

#[test]
fn parse_error_messages() {
    let e = ParseError::expected(Rule::TypeDefinition, Rule::CloseBrace, Span { start: 3, end: 4 });
    assert_eq!(e.message, "Expected TypeDefinition but found CloseBrace");
    assert_eq!(e.span, Some((3, 4)));
    assert_eq!(rule_name(Rule::NumberValue), "NumberValue");
    assert_eq!(rule_name(Rule::EOI), "EOI");
}

#[test]
fn tokens_carry_their_text_and_character_positions() {
    let tokens = tokenize("type S: string#date\n\"Größe\" @Max(12)?").unwrap();
    let kinds: Vec<TokenKind> = tokens.iter().map(|t| t.kind).collect();
    assert_eq!(
        kinds,
        vec![
            TokenKind::Identifier,
            TokenKind::Identifier,
            TokenKind::Colon,
            TokenKind::Identifier,
            TokenKind::Format,
            TokenKind::String,
            TokenKind::At,
            TokenKind::Identifier,
            TokenKind::OpenParen,
            TokenKind::Number,
            TokenKind::CloseParen,
            TokenKind::Question,
        ]
    );
    assert_eq!(tokens[1].text, "S");
    assert_eq!((tokens[1].start, tokens[1].end), (5, 6));
    assert_eq!(tokens[4].text, "date");
    assert_eq!((tokens[4].start, tokens[4].end), (14, 19));
    assert_eq!(tokens[5].text, "Größe");
    assert_eq!((tokens[5].start, tokens[5].end), (20, 27));
    assert_eq!(tokens[5].text_bytes, (21, 28));
    assert_eq!(tokens[4].text_bytes, (15, 19));
    assert_eq!(tokens[9].text_bytes, (35, 37));
    assert_eq!(tokens[9].text, "12");
}

#[test]
fn tokenize_stops_at_a_character_outside_the_language() {
    let e = tokenize("type A: string; type B: string").unwrap_err();
    assert_eq!(e.message, "Unexpected character");
    assert_eq!(e.span, Some((14, 15)));
}

#[test]
fn tokens_lie_in_order_within_the_text() {
    let src = "schema S {\n  a: [T]\n  b: number#float?\n}";
    let chars: Vec<char> = src.chars().collect();
    let tokens = tokenize(src).unwrap();
    let mut last_end = 0;
    for t in &tokens {
        assert!(last_end <= t.start && t.start < t.end && t.end <= chars.len());
        let slice: String = chars[t.start..t.end].iter().collect();
        match t.kind {
            TokenKind::String => assert_eq!(slice, format!("\"{}\"", t.text)),
            TokenKind::Format => assert_eq!(slice, format!("#{}", t.text)),
            _ => assert_eq!(slice, t.text),
        }
        last_end = t.end;
    }
}

#[test]
fn constrained_by_replaces_the_constraints() {
    let d = Definition::Primitive(Primitive::new(
        Kind::String,
        Some(Format::String(StringFormat::Date)),
        vec![Constraint::Maximum(1)],
    ));
    match d.constrained_by(&vec![Constraint::Minimum(2), Constraint::Maximum(5)]) {
        Definition::Primitive(p) => {
            assert_eq!(*p.kind(), Kind::String);
            assert!(matches!(p.format(), Some(Format::String(StringFormat::Date))));
            assert_eq!(p.constraints(), &vec![Constraint::Minimum(2), Constraint::Maximum(5)]);
        }
        other => panic!("expected a primitive, got {:?}", other),
    }
}

#[test]
fn reference_to_wraps_the_schema() {
    let s = Schema::new("A".to_string(), ReferenceOr::Actual(Definition::Object(vec![])));
    match ReferenceOr::reference_to(s) {
        ReferenceOr::Reference(r) => assert_eq!(r.identifier, "A"),
        other => panic!("expected a reference, got {:?}", other),
    }
}

#[test]
fn command_line_holds_the_compile_command() {
    let args = Args { command: Commands::Compile { file: "spec.api".to_string(), output: None } };
    match args.command {
        Commands::Compile { file, output } => {
            assert_eq!(file, "spec.api");
            assert!(output.is_none());
        }
    }
}

#[test]
fn reported_places_are_byte_offsets() {
    let src = "api \"\u{e9}\" \"1\" { path \"/x\" { GET x(p: [string]) { } } }";
    let error = compile(src).unwrap_err();
    match &error {
        CompileError::Parse(e) => assert_eq!(e.span, Some((36, 42))),
        other => panic!("expected a parse error, got {:?}", other),
    }
    let reported = handle_error(src, error).unwrap();
    assert_eq!(reported.message, "Expected Identifier but found Kind");
    assert_eq!(reported.span, Some((37, 43)));
    assert_eq!(&src[37..43], "string");
}

#[test]
fn syntax_errors_are_passed_on() {
    let error = compile("type X: string$").unwrap_err();
    match handle_error("type X: string$", error) {
        Err(CompileError::Syntax(e)) => assert_eq!(e.message, "Unexpected character"),
        other => panic!("expected the syntax error back, got {:?}", other),
    }
}

#[test]
fn can_compile_refuses_only_what_the_generator_cannot_render() {
    assert!(can_compile(""));
    assert!(can_compile("type : string"));
    assert!(can_compile("type A: string#uuid"));
    assert!(!can_compile("type A: string#uuid\napi \"a\" \"1\" { }"));
    assert!(can_compile("type A: string#date\napi \"a\" \"1\" { }"));
}
