//! Reading a source text into a document: tokens, then the syntax tree, then
//! the elaboration of the items in order. An item may refer only to schemas
//! defined before it; where several schemas share a name, the first counts.
use vstd::prelude::*;
use std::rc::Rc;

use crate::ast::{
    schema_view, definition_view,
    endpoint_entries_view, endpoint_view, field_view, fields_view, option_format_view,
    parameters_view, path_entries_view, path_view, reference_or_view, response_entries_view,
    responses_view, schemas_view, document_view, Constraint, Definition, DefinitionV, Document, DocumentV, Endpoint, EndpointV, Field,
    FieldV, Format, FormatV, HttpMethod, IntegerFormat, NumberFormat, Parameter, ParameterAnnotations,
    ParameterLocation, ParameterV, Path, PathV, Primitive, PrimitiveV, RefOrV, Schema, SchemaV,
    StringFormat, StringFormatV, API, ApiV,
};
use crate::lexer::{lex, lex_error_message, tokenize, tokens_view, LexErrorV, Token, TokenKind, TokenV};
use crate::maps::{
    endpoint_entries, insert_content, insert_endpoint, insert_path, insert_response,
    key_position, lemma_key_position, lemma_key_position_same_keys, map_insert, new_content_map,
    new_endpoint_map, new_path_map, new_response_map, path_entries, response_entries,
};
use crate::media::json_media_type;
use crate::text::{push_char, same_text, share_schema};
use crate::lexer::chars_of;
use crate::syntax::{
    items_view, endpoint_syntax_view, parameter_syntax_view, item_view, Item, EndpointSyntax, ParameterSyntax, PathSyntax, SchemaBody,
    p_script, parse_items, Annotation, EndpointSyntaxV, FieldSyntax, ItemV, ParameterSyntaxV, PathSyntaxV,
    ResponseSyntax, SchemaBodyV, SyntaxError, TypeExpr,
};
use crate::util::{expected_message, none_message, ParseError, ReferenceOr, Rule};

verus! {

/// Why a source text does not make a document: a syntax error (the text
/// does not split into tokens, or the tokens do not follow the grammar), a
/// parse error (a list names something other than a schema, an annotation
/// lacks its value), or an invalid document (an unknown type, an unsupported
/// format, a number out of range, a schema that is not an object).
#[derive(Debug)]
pub enum CompileError {
    Syntax(ParseError),
    Parse(ParseError),
    Invalid(String),
}

pub enum ErrorV {
    Syntax { message: Seq<char>, span: Option<(usize, usize)> },
    Parse { message: Seq<char>, span: Option<(usize, usize)> },
    Invalid(Seq<char>),
}

pub open spec fn error_view(e: CompileError) -> ErrorV {
    match e {
        CompileError::Syntax(p) => ErrorV::Syntax { message: p.message@, span: p.span },
        CompileError::Parse(p) => ErrorV::Parse { message: p.message@, span: p.span },
        CompileError::Invalid(m) => ErrorV::Invalid(m@),
    }
}

// ---------------------------------------------------------------------------
// What a document means.
// ---------------------------------------------------------------------------

/// The text of the token at `i` (empty where there is none).
pub open spec fn token_text(t: Seq<TokenV>, i: int) -> Seq<char> {
    if 0 <= i < t.len() {
        t[i].text
    } else {
        Seq::empty()
    }
}

/// The position of the first schema called `name`, or -1 where there is none.
pub open spec fn schema_position(schemas: Seq<SchemaV>, name: Seq<char>) -> int
    decreases schemas.len(),
{
    if schemas.len() == 0 {
        -1
    } else {
        let p = schema_position(schemas.drop_last(), name);
        if p >= 0 {
            p
        } else if schemas.last().identifier == name {
            schemas.len() - 1
        } else {
            -1
        }
    }
}

pub proof fn lemma_schema_position(schemas: Seq<SchemaV>, name: Seq<char>)
    ensures
        -1 <= schema_position(schemas, name) < schemas.len(),
        schema_position(schemas, name) >= 0 ==> schemas[schema_position(schemas, name)].identifier == name,
        forall|j: int|
            0 <= j < schemas.len() && (schema_position(schemas, name) < 0 || j < schema_position(schemas, name))
                ==> schemas[j].identifier != name,
    decreases schemas.len(),
{
    if schemas.len() > 0 {
        let prefix = schemas.drop_last();
        lemma_schema_position(prefix, name);
        assert forall|j: int| 0 <= j < prefix.len() implies prefix[j] == schemas[j] by {}
    }
}

pub open spec fn unknown_type(name: Seq<char>) -> ErrorV {
    ErrorV::Invalid(name + " is not a kown type"@)
}

pub open spec fn not_an_object(name: Seq<char>) -> ErrorV {
    ErrorV::Invalid(name + " was not an object"@)
}

/// The character that writes the decimal digit `d`.
pub open spec fn digit_char(d: nat) -> char {
    if d == 0 {
        '0'
    } else if d == 1 {
        '1'
    } else if d == 2 {
        '2'
    } else if d == 3 {
        '3'
    } else if d == 4 {
        '4'
    } else if d == 5 {
        '5'
    } else if d == 6 {
        '6'
    } else if d == 7 {
        '7'
    } else if d == 8 {
        '8'
    } else {
        '9'
    }
}

/// The decimal digits of `n`.
pub open spec fn decimal_text(n: nat) -> Seq<char>
    decreases n,
{
    if n < 10 {
        seq![digit_char(n)]
    } else {
        decimal_text(n / 10).push(digit_char(n % 10))
    }
}

/// The byte offsets of the text of the token at `i` ((0, 0) where there is none).
pub open spec fn token_bytes(t: Seq<TokenV>, i: int) -> (usize, usize) {
    if 0 <= i < t.len() {
        t[i].text_bytes
    } else {
        (0, 0)
    }
}

/// A format of no known name, reported as the grammar's `Format` node: the
/// rule's name and the byte offsets where the format's name starts and ends.
pub open spec fn unsupported_format(bytes: (usize, usize)) -> ErrorV {
    ErrorV::Invalid(
        "unsupported format: Format("@ + decimal_text(bytes.0 as nat) + ", "@ + decimal_text(bytes.1 as nat) + ")"@,
    )
}

pub open spec fn number_too_large() -> ErrorV {
    ErrorV::Invalid("number too large to fit in target type"@)
}

/// The format that a format name stands for: one of the formats OpenAPI
/// names, or a custom string format when the name starts with `x-`.
pub open spec fn format_named(w: Seq<char>) -> Option<FormatV> {
    if w == "date"@ {
        Some(FormatV::String(StringFormatV::Date))
    } else if w == "date-time"@ {
        Some(FormatV::String(StringFormatV::DateTime))
    } else if w == "password"@ {
        Some(FormatV::String(StringFormatV::Password))
    } else if w == "byte"@ {
        Some(FormatV::String(StringFormatV::Byte))
    } else if w == "binary"@ {
        Some(FormatV::String(StringFormatV::Binary))
    } else if w == "email"@ {
        Some(FormatV::String(StringFormatV::Email))
    } else if w == "uuid"@ {
        Some(FormatV::String(StringFormatV::Uuid))
    } else if w == "uri"@ {
        Some(FormatV::String(StringFormatV::Uri))
    } else if w == "hostname"@ {
        Some(FormatV::String(StringFormatV::Hostname))
    } else if w == "ipv4"@ {
        Some(FormatV::String(StringFormatV::Ipv4))
    } else if w == "ipv6"@ {
        Some(FormatV::String(StringFormatV::Ipv6))
    } else if w == "int32"@ {
        Some(FormatV::Integer(IntegerFormat::Int32))
    } else if w == "int64"@ {
        Some(FormatV::Integer(IntegerFormat::Int64))
    } else if w == "float"@ {
        Some(FormatV::Number(NumberFormat::Float))
    } else if w == "double"@ {
        Some(FormatV::Number(NumberFormat::Double))
    } else if w.len() >= 2 && w[0] == 'x' && w[1] == '-' {
        Some(FormatV::String(StringFormatV::Custom(w)))
    } else {
        None
    }
}

/// The rule of the type written inside a list.
pub open spec fn expr_rule(ty: TypeExpr) -> Rule {
    match ty {
        TypeExpr::Named { .. } => Rule::Identifier,
        TypeExpr::List { .. } => Rule::List,
        TypeExpr::Primitive { .. } => Rule::Kind,
    }
}

pub open spec fn expr_span(t: Seq<TokenV>, ty: TypeExpr) -> (usize, usize) {
    match ty {
        TypeExpr::Named { token } => (t[token as int].start as usize, t[token as int].end as usize),
        TypeExpr::List { start, end, .. } => (start, end),
        TypeExpr::Primitive { start, end, .. } => (start, end),
    }
}

/// What a written type means, given the schemas defined so far.
pub open spec fn resolve(t: Seq<TokenV>, schemas: Seq<SchemaV>, ty: TypeExpr) -> Result<RefOrV, ErrorV> {
    match ty {
        TypeExpr::Named { token } => {
            let name = token_text(t, token as int);
            if schema_position(schemas, name) >= 0 {
                Ok(RefOrV::Reference(Box::new(schemas[schema_position(schemas, name)])))
            } else {
                Err(unknown_type(name))
            }
        },
        TypeExpr::List { element, .. } => match *element {
            TypeExpr::Named { token } => {
                let name = token_text(t, token as int);
                if schema_position(schemas, name) >= 0 {
                    Ok(RefOrV::Actual(DefinitionV::Array(Box::new(schemas[schema_position(schemas, name)]))))
                } else {
                    Err(unknown_type(name))
                }
            },
            other => Err(
                ErrorV::Parse {
                    message: expected_message(Rule::Identifier, expr_rule(other)),
                    span: Some(expr_span(t, other)),
                },
            ),
        },
        TypeExpr::Primitive { kind, format, .. } => match format {
            None => Ok(RefOrV::Actual(DefinitionV::Primitive(PrimitiveV { kind, format: None, constraints: Seq::empty() }))),
            Some(f) => match format_named(token_text(t, f as int)) {
                Some(fv) => Ok(
                    RefOrV::Actual(DefinitionV::Primitive(PrimitiveV { kind, format: Some(fv), constraints: Seq::empty() })),
                ),
                None => Err(unsupported_format(token_bytes(t, f as int))),
            },
        },
    }
}

pub open spec fn digit_value(c: char) -> nat {
    if '0' <= c && c <= '9' {
        (c as nat - '0' as nat) as nat
    } else {
        0
    }
}

/// The number that a sequence of decimal digits writes.
pub open spec fn decimal_value(s: Seq<char>) -> nat
    decreases s.len(),
{
    if s.len() == 0 {
        0
    } else {
        decimal_value(s.drop_last()) * 10 + digit_value(s.last())
    }
}

/// The number that `s` writes, where it is at most `max`.
pub open spec fn decimal(s: Seq<char>, max: nat) -> Option<nat> {
    if decimal_value(s) <= max {
        Some(decimal_value(s))
    } else {
        None
    }
}

/// The fields of an object, from the `k`-th on, after those already read.
pub open spec fn resolve_fields(
    t: Seq<TokenV>,
    schemas: Seq<SchemaV>,
    fs: Seq<FieldSyntax>,
    k: int,
    done: Seq<FieldV>,
) -> Result<Seq<FieldV>, ErrorV>
    decreases fs.len() - k,
{
    if k < 0 || k >= fs.len() {
        Ok(done)
    } else {
        match resolve(t, schemas, fs[k].ty) {
            Ok(def) => resolve_fields(
                t,
                schemas,
                fs,
                k + 1,
                done.push(FieldV { name: token_text(t, fs[k].name as int), definition: def, required: !fs[k].optional }),
            ),
            Err(e) => Err(e),
        }
    }
}

/// Where a parameter is given and its constraints, read from its annotations
/// from the `k`-th on: `@Path` and `@Query` set the place (the last one
/// counts; a parameter is in the query by default), `@Max(n)` adds a maximum,
/// other annotations are passed over.
pub open spec fn read_annotations(
    t: Seq<TokenV>,
    anns: Seq<Annotation>,
    k: int,
    location: Option<ParameterLocation>,
    constraints: Seq<Constraint>,
) -> Result<(ParameterLocation, Seq<Constraint>), ErrorV>
    decreases anns.len() - k,
{
    if k < 0 || k >= anns.len() {
        Ok((
            match location {
                Some(l) => l,
                None => ParameterLocation::Query,
            },
            constraints,
        ))
    } else {
        let name = token_text(t, anns[k].name as int);
        if name == "Path"@ {
            read_annotations(t, anns, k + 1, Some(ParameterLocation::Path), constraints)
        } else if name == "Query"@ {
            read_annotations(t, anns, k + 1, Some(ParameterLocation::Query), constraints)
        } else if name == "Max"@ {
            match anns[k].value {
                None => Err(ErrorV::Parse { message: none_message(Rule::NumberValue), span: None }),
                Some(v) => match decimal(token_text(t, v as int), usize::MAX as nat) {
                    Some(n) => read_annotations(
                        t,
                        anns,
                        k + 1,
                        location,
                        constraints.push(Constraint::Maximum(n as usize)),
                    ),
                    None => Err(number_too_large()),
                },
            }
        } else {
            read_annotations(t, anns, k + 1, location, constraints)
        }
    }
}

pub open spec fn elab_parameter(t: Seq<TokenV>, schemas: Seq<SchemaV>, p: ParameterSyntaxV) -> Result<ParameterV, ErrorV> {
    match read_annotations(t, p.annotations, 0, None, Seq::empty()) {
        Ok((location, constraints)) => match resolve(t, schemas, p.ty) {
            Ok(kind) => Ok(ParameterV { name: token_text(t, p.name as int), kind, location, constraints }),
            Err(e) => Err(e),
        },
        Err(e) => Err(e),
    }
}

pub open spec fn elab_parameters(
    t: Seq<TokenV>,
    schemas: Seq<SchemaV>,
    ps: Seq<ParameterSyntaxV>,
    k: int,
    done: Seq<ParameterV>,
) -> Result<Seq<ParameterV>, ErrorV>
    decreases ps.len() - k,
{
    if k < 0 || k >= ps.len() {
        Ok(done)
    } else {
        match elab_parameter(t, schemas, ps[k]) {
            Ok(p) => elab_parameters(t, schemas, ps, k + 1, done.push(p)),
            Err(e) => Err(e),
        }
    }
}

/// The response bodies of an endpoint by HTTP code, from the `k`-th response
/// on; each body is sent as `application/json`.
pub open spec fn elab_responses(
    t: Seq<TokenV>,
    schemas: Seq<SchemaV>,
    rs: Seq<ResponseSyntax>,
    k: int,
    done: Seq<(u16, Seq<(Seq<char>, RefOrV)>)>,
) -> Result<Seq<(u16, Seq<(Seq<char>, RefOrV)>)>, ErrorV>
    decreases rs.len() - k,
{
    if k < 0 || k >= rs.len() {
        Ok(done)
    } else {
        match decimal(token_text(t, rs[k].code as int), u16::MAX as nat) {
            None => Err(number_too_large()),
            Some(code) => match resolve(t, schemas, rs[k].ty) {
                Ok(def) => elab_responses(
                    t,
                    schemas,
                    rs,
                    k + 1,
                    map_insert(done, code as u16, seq![("application/json"@, def)]),
                ),
                Err(e) => Err(e),
            },
        }
    }
}

pub open spec fn elab_endpoint(t: Seq<TokenV>, schemas: Seq<SchemaV>, e: EndpointSyntaxV) -> Result<EndpointV, ErrorV> {
    match elab_parameters(t, schemas, e.parameters, 0, Seq::empty()) {
        Ok(parameters) => match elab_responses(t, schemas, e.responses, 0, Seq::empty()) {
            Ok(responses) => Ok(EndpointV { operation_id: token_text(t, e.operation_id as int), parameters, responses }),
            Err(err) => Err(err),
        },
        Err(err) => Err(err),
    }
}

pub open spec fn elab_endpoints(
    t: Seq<TokenV>,
    schemas: Seq<SchemaV>,
    es: Seq<EndpointSyntaxV>,
    k: int,
    done: Seq<(HttpMethod, EndpointV)>,
) -> Result<Seq<(HttpMethod, EndpointV)>, ErrorV>
    decreases es.len() - k,
{
    if k < 0 || k >= es.len() {
        Ok(done)
    } else {
        match elab_endpoint(t, schemas, es[k]) {
            Ok(ev) => elab_endpoints(t, schemas, es, k + 1, map_insert(done, es[k].method, ev)),
            Err(e) => Err(e),
        }
    }
}

pub open spec fn elab_paths(
    t: Seq<TokenV>,
    schemas: Seq<SchemaV>,
    ps: Seq<PathSyntaxV>,
    k: int,
    done: Seq<(Seq<char>, PathV)>,
) -> Result<Seq<(Seq<char>, PathV)>, ErrorV>
    decreases ps.len() - k,
{
    if k < 0 || k >= ps.len() {
        Ok(done)
    } else {
        match elab_endpoints(t, schemas, ps[k].endpoints, 0, Seq::empty()) {
            Ok(endpoints) => elab_paths(
                t,
                schemas,
                ps,
                k + 1,
                map_insert(done, token_text(t, ps[k].url as int), PathV { endpoints }),
            ),
            Err(e) => Err(e),
        }
    }
}

/// What one item adds to the document: a schema or an API.
pub enum Elaborated {
    Schema(SchemaV),
    Api(ApiV),
}

pub open spec fn elab_item(t: Seq<TokenV>, schemas: Seq<SchemaV>, item: ItemV) -> Result<Elaborated, ErrorV> {
    match item {
        ItemV::Type { name, ty } => match resolve(t, schemas, ty) {
            Ok(def) => Ok(Elaborated::Schema(SchemaV { identifier: token_text(t, name as int), definition: def })),
            Err(e) => Err(e),
        },
        ItemV::Schema { name, body } => match body {
            SchemaBodyV::Fields(fs) => match resolve_fields(t, schemas, fs, 0, Seq::empty()) {
                Ok(fields) => Ok(
                    Elaborated::Schema(
                        SchemaV {
                            identifier: token_text(t, name as int),
                            definition: RefOrV::Actual(DefinitionV::Object(fields)),
                        },
                    ),
                ),
                Err(e) => Err(e),
            },
            SchemaBodyV::Alias(_) => Err(not_an_object(token_text(t, name as int))),
        },
        ItemV::Api { name, version, paths } => match elab_paths(t, schemas, paths, 0, Seq::empty()) {
            Ok(pv) => Ok(
                Elaborated::Api(ApiV { name: token_text(t, name as int), version: token_text(t, version as int), paths: pv }),
            ),
            Err(e) => Err(e),
        },
    }
}

/// The document made of the items from the `k`-th on, added to `doc`.
pub open spec fn elab_items(t: Seq<TokenV>, items: Seq<ItemV>, k: int, doc: DocumentV) -> Result<DocumentV, ErrorV>
    decreases items.len() - k,
{
    if k < 0 || k >= items.len() {
        Ok(doc)
    } else {
        match elab_item(t, doc.schemas, items[k]) {
            Ok(Elaborated::Schema(s)) => elab_items(t, items, k + 1, DocumentV { schemas: doc.schemas.push(s), ..doc }),
            Ok(Elaborated::Api(a)) => elab_items(t, items, k + 1, DocumentV { apis: doc.apis.push(a), ..doc }),
            Err(e) => Err(e),
        }
    }
}

pub open spec fn elaborate(t: Seq<TokenV>, items: Seq<ItemV>) -> Result<DocumentV, ErrorV> {
    elab_items(t, items, 0, DocumentV { schemas: Seq::empty(), apis: Seq::empty() })
}

/// The rule that a token of this kind is reported as.
pub open spec fn token_rule(kind: TokenKind) -> Rule {
    match kind {
        TokenKind::Identifier => Rule::Identifier,
        TokenKind::String => Rule::String,
        TokenKind::Number => Rule::NumberValue,
        TokenKind::Format => Rule::Format,
        TokenKind::Colon => Rule::Colon,
        TokenKind::Comma => Rule::Comma,
        TokenKind::OpenBrace => Rule::OpenBrace,
        TokenKind::CloseBrace => Rule::CloseBrace,
        TokenKind::OpenBracket => Rule::OpenBracket,
        TokenKind::CloseBracket => Rule::CloseBracket,
        TokenKind::OpenParen => Rule::OpenParen,
        TokenKind::CloseParen => Rule::CloseParen,
        TokenKind::At => Rule::At,
        TokenKind::Question => Rule::Question,
    }
}

/// The error reported for a place where the tokens depart from the grammar:
/// what was expected and the token found there, or the end of the input.
pub open spec fn syntax_error_view(t: Seq<TokenV>, e: SyntaxError) -> ErrorV {
    if e.at < t.len() {
        ErrorV::Syntax {
            message: expected_message(e.expected, token_rule(t[e.at as int].kind)),
            span: Some((t[e.at as int].start as usize, t[e.at as int].end as usize)),
        }
    } else {
        ErrorV::Syntax { message: none_message(e.expected), span: None }
    }
}

pub open spec fn lex_error_view(e: LexErrorV) -> ErrorV {
    ErrorV::Syntax { message: lex_error_message(e.kind), span: Some((e.start as usize, e.end as usize)) }
}

/// The document that a source text describes, or why it describes none.
pub open spec fn parse_spec(s: Seq<char>) -> Result<DocumentV, ErrorV> {
    match lex(s) {
        Err(e) => Err(lex_error_view(e)),
        Ok(t) => match p_script(t) {
            Err(e) => Err(syntax_error_view(t, e)),
            Ok(items) => elaborate(t, items),
        },
    }
}

// ---------------------------------------------------------------------------
// Laws about the views of maps and lists, used by the elaboration below.
// ---------------------------------------------------------------------------

pub proof fn lemma_fields_view(fs: Seq<Field>)
    ensures
        fields_view(fs) == fs.map_values(|f: Field| field_view(f)),
    decreases fs.len(),
{
    if fs.len() > 0 {
        let rest = fs.subrange(1, fs.len() as int);
        lemma_fields_view(rest);
        assert(fields_view(fs) =~= fs.map_values(|f: Field| field_view(f)));
    } else {
        assert(fields_view(fs) =~= fs.map_values(|f: Field| field_view(f)));
    }
}

proof fn lemma_insert_path_view(es: Seq<(Seq<char>, Path)>, k: Seq<char>, v: Path)
    ensures
        path_entries_view(map_insert(es, k, v)) == map_insert(path_entries_view(es), k, path_view(v)),
{
    let ws = path_entries_view(es);
    assert forall|i: int| 0 <= i < es.len() implies #[trigger] es[i].0 == ws[i].0 by {}
    lemma_key_position_same_keys(es, ws, k);
    lemma_key_position(es, k);
    let p = key_position(es, k);
    if p >= 0 {
        assert(path_entries_view(es.update(p, (es[p].0, v))) =~= ws.update(p, (ws[p].0, path_view(v))));
    } else {
        assert(path_entries_view(es.push((k, v))) =~= ws.push((k, path_view(v))));
    }
}

proof fn lemma_insert_endpoint_view(es: Seq<(HttpMethod, Endpoint)>, k: HttpMethod, v: Endpoint)
    ensures
        endpoint_entries_view(map_insert(es, k, v)) == map_insert(endpoint_entries_view(es), k, endpoint_view(v)),
{
    let ws = endpoint_entries_view(es);
    assert forall|i: int| 0 <= i < es.len() implies #[trigger] es[i].0 == ws[i].0 by {}
    lemma_key_position_same_keys(es, ws, k);
    lemma_key_position(es, k);
    let p = key_position(es, k);
    if p >= 0 {
        assert(endpoint_entries_view(es.update(p, (es[p].0, v))) =~= ws.update(p, (ws[p].0, endpoint_view(v))));
    } else {
        assert(endpoint_entries_view(es.push((k, v))) =~= ws.push((k, endpoint_view(v))));
    }
}

proof fn lemma_insert_response_view(es: Seq<(u16, crate::ast::Responses)>, k: u16, v: crate::ast::Responses)
    ensures
        response_entries_view(map_insert(es, k, v)) == map_insert(response_entries_view(es), k, responses_view(v)),
{
    let ws = response_entries_view(es);
    assert forall|i: int| 0 <= i < es.len() implies #[trigger] es[i].0 == ws[i].0 by {}
    lemma_key_position_same_keys(es, ws, k);
    lemma_key_position(es, k);
    let p = key_position(es, k);
    if p >= 0 {
        assert(response_entries_view(es.update(p, (es[p].0, v))) =~= ws.update(p, (ws[p].0, responses_view(v))));
    } else {
        assert(response_entries_view(es.push((k, v))) =~= ws.push((k, responses_view(v))));
    }
}

// ---------------------------------------------------------------------------
// The elaboration. Each function follows the meaning function of the same name.
// ---------------------------------------------------------------------------

/// The text of the token at `i` (empty where there is none).
fn text_at(t: &Vec<Token>, i: usize) -> (s: String)
    ensures
        s@ == token_text(tokens_view(t@), i as int),
{
    if i < t.len() {
        t[i].text.clone()
    } else {
        String::new()
    }
}

/// The byte offsets of the text of the token at `i` ((0, 0) where there is none).
fn bytes_at(t: &Vec<Token>, i: usize) -> (b: (usize, usize))
    ensures
        b == token_bytes(tokens_view(t@), i as int),
{
    if i < t.len() {
        t[i].text_bytes
    } else {
        (0, 0)
    }
}

fn digit_of(d: usize) -> (c: char)
    requires
        d < 10,
    ensures
        c == digit_char(d as nat),
{
    if d == 0 {
        '0'
    } else if d == 1 {
        '1'
    } else if d == 2 {
        '2'
    } else if d == 3 {
        '3'
    } else if d == 4 {
        '4'
    } else if d == 5 {
        '5'
    } else if d == 6 {
        '6'
    } else if d == 7 {
        '7'
    } else if d == 8 {
        '8'
    } else {
        '9'
    }
}

/// Appends the decimal digits of `n`.
fn push_decimal(s: &mut String, n: usize)
    ensures
        final(s)@ == old(s)@ + decimal_text(n as nat),
    decreases n,
{
    if n >= 10 {
        push_decimal(s, n / 10);
        let ghost mid = s@;
        push_char(s, digit_of(n % 10));
        assert(s@ == mid.push(digit_char((n % 10) as nat)));
        assert(decimal_text(n as nat) == decimal_text((n / 10) as nat).push(digit_char((n % 10) as nat)));
        assert(s@ =~= old(s)@ + decimal_text(n as nat));
    } else {
        push_char(s, digit_of(n));
        assert(s@ =~= old(s)@ + decimal_text(n as nat));
    }
}

/// The first schema of the document called `name`, shared.
fn find_schema(doc: &Document, name: &String) -> (r: Option<Rc<Schema>>)
    ensures
        match r {
            Some(s) => schema_position(schemas_view(doc.schemas@), name@) >= 0 && s.identifier@ == name@
                && *s == *doc.schemas@[schema_position(schemas_view(doc.schemas@), name@)],
            None => schema_position(schemas_view(doc.schemas@), name@) < 0,
        },
{
    let ghost sv = schemas_view(doc.schemas@);
    proof {
        lemma_schema_position(sv, name@);
    }
    let mut i: usize = 0;
    while i < doc.schemas.len()
        invariant
            i <= doc.schemas.len(),
            sv == schemas_view(doc.schemas@),
            forall|j: int| 0 <= j < i ==> sv[j].identifier != name@,
        decreases doc.schemas.len() - i,
    {
        if doc.schemas[i].identifier == *name {
            assert(sv[i as int].identifier == name@);
            proof {
                lemma_schema_position(sv, name@);
            }
            return Some(share_schema(&doc.schemas[i]));
        }
        i = i + 1;
    }
    None
}

fn unknown_type_error(name: String) -> (e: CompileError)
    ensures
        error_view(e) == unknown_type(name@),
{
    let mut message = name;
    message.append(" is not a kown type");
    CompileError::Invalid(message)
}

fn number_too_large_error() -> (e: CompileError)
    ensures
        error_view(e) == number_too_large(),
{
    CompileError::Invalid(String::from_str("number too large to fit in target type"))
}

/// The format that a format name stands for.
fn parse_format(w: &String) -> (r: Option<Format>)
    ensures
        option_format_view(r) == format_named(w@),
{
    let s = w.as_str();
    if same_text(s, "date") {
        Some(Format::String(StringFormat::Date))
    } else if same_text(s, "date-time") {
        Some(Format::String(StringFormat::DateTime))
    } else if same_text(s, "password") {
        Some(Format::String(StringFormat::Password))
    } else if same_text(s, "byte") {
        Some(Format::String(StringFormat::Byte))
    } else if same_text(s, "binary") {
        Some(Format::String(StringFormat::Binary))
    } else if same_text(s, "email") {
        Some(Format::String(StringFormat::Email))
    } else if same_text(s, "uuid") {
        Some(Format::String(StringFormat::Uuid))
    } else if same_text(s, "uri") {
        Some(Format::String(StringFormat::Uri))
    } else if same_text(s, "hostname") {
        Some(Format::String(StringFormat::Hostname))
    } else if same_text(s, "ipv4") {
        Some(Format::String(StringFormat::Ipv4))
    } else if same_text(s, "ipv6") {
        Some(Format::String(StringFormat::Ipv6))
    } else if same_text(s, "int32") {
        Some(Format::Integer(IntegerFormat::Int32))
    } else if same_text(s, "int64") {
        Some(Format::Integer(IntegerFormat::Int64))
    } else if same_text(s, "float") {
        Some(Format::Number(NumberFormat::Float))
    } else if same_text(s, "double") {
        Some(Format::Number(NumberFormat::Double))
    } else {
        let chars = chars_of(s);
        if chars.len() >= 2 && chars[0] == 'x' && chars[1] == '-' {
            Some(Format::String(StringFormat::Custom(w.clone())))
        } else {
            None
        }
    }
}

pub proof fn lemma_decimal_prefix(s: Seq<char>, k: int)
    requires
        0 <= k <= s.len(),
    ensures
        decimal_value(s.take(k)) <= decimal_value(s),
    decreases s.len(),
{
    if k < s.len() {
        assert(s.drop_last().take(k) == s.take(k));
        lemma_decimal_prefix(s.drop_last(), k);
    } else {
        assert(s.take(k) == s);
    }
}

/// The number that the digits of `w` write, where it is at most `max`.
fn decimal_of(w: &String, max: usize) -> (r: Option<usize>)
    ensures
        match decimal(w@, max as nat) {
            Some(n) => r == Some(n as usize),
            None => r is None,
        },
{
    let chars = chars_of(w.as_str());
    let mut value: usize = 0;
    let mut i: usize = 0;
    while i < chars.len()
        invariant
            i <= chars.len(),
            chars@ == w@,
            value as nat == decimal_value(chars@.take(i as int)),
            value <= max,
        decreases chars.len() - i,
    {
        let c = chars[i];
        let d: u32 = if '0' <= c && c <= '9' { (c as u32) - ('0' as u32) } else { 0 };
        assert(chars@.take(i + 1).drop_last() == chars@.take(i as int));
        assert(d as nat == digit_value(chars@[i as int]));
        let next: u128 = (value as u128) * 10 + (d as u128);
        if next > max as u128 {
            proof {
                lemma_decimal_prefix(w@, i + 1);
            }
            return None;
        }
        value = next as usize;
        i = i + 1;
    }
    assert(chars@.take(chars.len() as int) == chars@);
    Some(value)
}

/// What a written type means, given the schemas of the document so far.
fn parse_type_definition(t: &Vec<Token>, doc: &Document, ty: &TypeExpr) -> (r: Result<ReferenceOr, CompileError>)
    ensures
        match r {
            Ok(x) => resolve(tokens_view(t@), document_view(*doc).schemas, *ty) == Ok::<RefOrV, ErrorV>(reference_or_view(x)),
            Err(e) => resolve(tokens_view(t@), document_view(*doc).schemas, *ty) == Err::<RefOrV, ErrorV>(error_view(e)),
        },
{
    match ty {
        TypeExpr::Named { token } => {
            let name = text_at(t, *token);
            match find_schema(doc, &name) {
                Some(schema) => {
                    proof {
                        let p = schema_position(schemas_view(doc.schemas@), name@);
                        lemma_schema_position(schemas_view(doc.schemas@), name@);
                        assert(schemas_view(doc.schemas@)[p] == schema_view(*doc.schemas@[p]));
                        assert(reference_or_view(ReferenceOr::Reference(schema))
                            == RefOrV::Reference(Box::new(schema_view(*schema))));
                    }
                    Ok(ReferenceOr::Reference(schema))
                },
                None => Err(unknown_type_error(name)),
            }
        },
        TypeExpr::List { element, .. } => match &**element {
            TypeExpr::Named { token } => {
                let name = text_at(t, *token);
                match find_schema(doc, &name) {
                    Some(schema) => {
                        proof {
                            let p = schema_position(schemas_view(doc.schemas@), name@);
                            lemma_schema_position(schemas_view(doc.schemas@), name@);
                            assert(schemas_view(doc.schemas@)[p] == schema_view(*doc.schemas@[p]));
                            assert(definition_view(Definition::Array(schema))
                                == DefinitionV::Array(Box::new(schema_view(*schema))));
                        }
                        Ok(ReferenceOr::Actual(Definition::Array(schema)))
                    },
                    None => Err(unknown_type_error(name)),
                }
            },
            TypeExpr::List { start, end, .. } => Err(
                CompileError::Parse(ParseError::expected(Rule::Identifier, Rule::List, crate::util::Span { start: *start, end: *end })),
            ),
            TypeExpr::Primitive { start, end, .. } => Err(
                CompileError::Parse(ParseError::expected(Rule::Identifier, Rule::Kind, crate::util::Span { start: *start, end: *end })),
            ),
        },
        TypeExpr::Primitive { kind, format, .. } => match format {
            None => Ok(ReferenceOr::Actual(Definition::Primitive(Primitive::new(*kind, None, Vec::new())))),
            Some(f) => {
                let name = text_at(t, *f);
                match parse_format(&name) {
                    Some(fmt) => Ok(ReferenceOr::Actual(Definition::Primitive(Primitive::new(*kind, Some(fmt), Vec::new())))),
                    None => {
                        let (start, end) = bytes_at(t, *f);
                        let mut message = String::from_str("unsupported format: Format(");
                        push_decimal(&mut message, start);
                        message.append(", ");
                        push_decimal(&mut message, end);
                        message.append(")");
                        Err(CompileError::Invalid(message))
                    },
                }
            },
        },
    }
}

/// The fields of an object type.
fn parse_fields(t: &Vec<Token>, doc: &Document, fs: &Vec<FieldSyntax>) -> (r: Result<Vec<Field>, CompileError>)
    ensures
        match r {
            Ok(fields) => resolve_fields(tokens_view(t@), document_view(*doc).schemas, fs@, 0, Seq::empty())
                == Ok::<Seq<FieldV>, ErrorV>(fields_view(fields@)),
            Err(e) => resolve_fields(tokens_view(t@), document_view(*doc).schemas, fs@, 0, Seq::empty())
                == Err::<Seq<FieldV>, ErrorV>(error_view(e)),
        },
{
    let ghost tv = tokens_view(t@);
    let ghost sv = document_view(*doc).schemas;
    let mut done: Vec<Field> = Vec::new();
    let mut k: usize = 0;
    proof {
        lemma_fields_view(done@);
    }
    while k < fs.len()
        invariant
            k <= fs.len(),
            tv == tokens_view(t@),
            sv == document_view(*doc).schemas,
            resolve_fields(tv, sv, fs@, 0, Seq::empty()) == resolve_fields(tv, sv, fs@, k as int, fields_view(done@)),
        decreases fs.len() - k,
    {
        let definition = match parse_type_definition(t, doc, &fs[k].ty) {
            Ok(d) => d,
            Err(e) => return Err(e),
        };
        let field = Field::new(text_at(t, fs[k].name), definition, !fs[k].optional);
        proof {
            lemma_fields_view(done@);
            lemma_fields_view(done@.push(field));
            assert(done@.push(field).map_values(|f: Field| field_view(f))
                == done@.map_values(|f: Field| field_view(f)).push(field_view(field)));
        }
        done.push(field);
        k = k + 1;
    }
    Ok(done)
}

/// Where a parameter is given and its constraints, from its annotations.
fn parse_parameter_annotations(t: &Vec<Token>, anns: &Vec<Annotation>) -> (r: Result<ParameterAnnotations, CompileError>)
    ensures
        match r {
            Ok(a) => read_annotations(tokens_view(t@), anns@, 0, None, Seq::empty())
                == Ok::<(ParameterLocation, Seq<Constraint>), ErrorV>((a.spec_location(), a.spec_constraints()@)),
            Err(e) => read_annotations(tokens_view(t@), anns@, 0, None, Seq::empty())
                == Err::<(ParameterLocation, Seq<Constraint>), ErrorV>(error_view(e)),
        },
{
    let ghost tv = tokens_view(t@);
    let mut location: Option<ParameterLocation> = None;
    let mut constraints: Vec<Constraint> = Vec::new();
    let mut k: usize = 0;
    while k < anns.len()
        invariant
            k <= anns.len(),
            tv == tokens_view(t@),
            read_annotations(tv, anns@, 0, None, Seq::empty())
                == read_annotations(tv, anns@, k as int, location, constraints@),
        decreases anns.len() - k,
    {
        let name = text_at(t, anns[k].name);
        if same_text(name.as_str(), "Path") {
            location = Some(ParameterLocation::Path);
        } else if same_text(name.as_str(), "Query") {
            location = Some(ParameterLocation::Query);
        } else if same_text(name.as_str(), "Max") {
            match anns[k].value {
                None => return Err(CompileError::Parse(ParseError::none(Rule::NumberValue))),
                Some(v) => match decimal_of(&text_at(t, v), usize::MAX) {
                    Some(n) => constraints.push(Constraint::Maximum(n)),
                    None => return Err(number_too_large_error()),
                },
            }
        }
        k = k + 1;
    }
    let place = match location {
        Some(l) => l,
        None => ParameterLocation::Query,
    };
    Ok(ParameterAnnotations::new(place, constraints))
}

fn parse_parameter(t: &Vec<Token>, doc: &Document, p: &ParameterSyntax) -> (r: Result<Parameter, CompileError>)
    ensures
        match r {
            Ok(x) => elab_parameter(tokens_view(t@), document_view(*doc).schemas, parameter_syntax_view(*p))
                == Ok::<ParameterV, ErrorV>(crate::ast::parameter_view(x)),
            Err(e) => elab_parameter(tokens_view(t@), document_view(*doc).schemas, parameter_syntax_view(*p))
                == Err::<ParameterV, ErrorV>(error_view(e)),
        },
{
    let annotations = match parse_parameter_annotations(t, &p.annotations) {
        Ok(a) => a,
        Err(e) => return Err(e),
    };
    let kind = match parse_type_definition(t, doc, &p.ty) {
        Ok(k) => k,
        Err(e) => return Err(e),
    };
    let name = text_at(t, p.name);
    Ok(Parameter::new(name.as_str(), kind, annotations))
}

fn parse_parameters(t: &Vec<Token>, doc: &Document, ps: &Vec<ParameterSyntax>) -> (r: Result<Vec<Parameter>, CompileError>)
    ensures
        match r {
            Ok(xs) => elab_parameters(tokens_view(t@), document_view(*doc).schemas, crate::syntax::parameters_syntax_view(ps@), 0, Seq::empty())
                == Ok::<Seq<ParameterV>, ErrorV>(parameters_view(xs@)),
            Err(e) => elab_parameters(tokens_view(t@), document_view(*doc).schemas, crate::syntax::parameters_syntax_view(ps@), 0, Seq::empty())
                == Err::<Seq<ParameterV>, ErrorV>(error_view(e)),
        },
{
    let ghost tv = tokens_view(t@);
    let ghost sv = document_view(*doc).schemas;
    let ghost pv = crate::syntax::parameters_syntax_view(ps@);
    let mut done: Vec<Parameter> = Vec::new();
    assert(parameters_view(done@) =~= Seq::<ParameterV>::empty());
    let mut k: usize = 0;
    while k < ps.len()
        invariant
            k <= ps.len(),
            tv == tokens_view(t@),
            sv == document_view(*doc).schemas,
            pv == crate::syntax::parameters_syntax_view(ps@),
            elab_parameters(tv, sv, pv, 0, Seq::empty()) == elab_parameters(tv, sv, pv, k as int, parameters_view(done@)),
        decreases ps.len() - k,
    {
        let p = match parse_parameter(t, doc, &ps[k]) {
            Ok(p) => p,
            Err(e) => return Err(e),
        };
        assert(parameters_view(done@.push(p)) == parameters_view(done@).push(crate::ast::parameter_view(p)));
        done.push(p);
        k = k + 1;
    }
    Ok(done)
}

fn parse_responses(t: &Vec<Token>, doc: &Document, rs: &Vec<ResponseSyntax>) -> (r: Result<indexmap::IndexMap<u16, crate::ast::Responses>, CompileError>)
    ensures
        match r {
            Ok(m) => elab_responses(tokens_view(t@), document_view(*doc).schemas, rs@, 0, Seq::empty())
                == Ok::<Seq<(u16, Seq<(Seq<char>, RefOrV)>)>, ErrorV>(response_entries_view(response_entries(m))),
            Err(e) => elab_responses(tokens_view(t@), document_view(*doc).schemas, rs@, 0, Seq::empty())
                == Err::<Seq<(u16, Seq<(Seq<char>, RefOrV)>)>, ErrorV>(error_view(e)),
        },
{
    let ghost tv = tokens_view(t@);
    let ghost sv = document_view(*doc).schemas;
    let mut responses = new_response_map();
    assert(response_entries_view(response_entries(responses)) =~= Seq::<(u16, Seq<(Seq<char>, RefOrV)>)>::empty());
    let mut k: usize = 0;
    while k < rs.len()
        invariant
            k <= rs.len(),
            tv == tokens_view(t@),
            sv == document_view(*doc).schemas,
            elab_responses(tv, sv, rs@, 0, Seq::empty())
                == elab_responses(tv, sv, rs@, k as int, response_entries_view(response_entries(responses))),
        decreases rs.len() - k,
    {
        let code = match decimal_of(&text_at(t, rs[k].code), 65535) {
            Some(c) => c as u16,
            None => return Err(number_too_large_error()),
        };
        let definition = match parse_type_definition(t, doc, &rs[k].ty) {
            Ok(d) => d,
            Err(e) => return Err(e),
        };
        let ghost def_view = reference_or_view(definition);
        let media = json_media_type();
        let ghost media_view = media@;
        let mut content = new_content_map();
        insert_content(&mut content, media, definition);
        assert(responses_view(content) =~= seq![("application/json"@, def_view)]);
        proof {
            lemma_insert_response_view(response_entries(responses), code, content);
        }
        insert_response(&mut responses, code, content);
        k = k + 1;
    }
    Ok(responses)
}

fn parse_endpoint(t: &Vec<Token>, doc: &Document, e: &EndpointSyntax) -> (r: Result<Endpoint, CompileError>)
    ensures
        match r {
            Ok(x) => elab_endpoint(tokens_view(t@), document_view(*doc).schemas, endpoint_syntax_view(*e))
                == Ok::<EndpointV, ErrorV>(endpoint_view(x)),
            Err(err) => elab_endpoint(tokens_view(t@), document_view(*doc).schemas, endpoint_syntax_view(*e))
                == Err::<EndpointV, ErrorV>(error_view(err)),
        },
{
    let parameters = match parse_parameters(t, doc, &e.parameters) {
        Ok(p) => p,
        Err(err) => return Err(err),
    };
    let responses = match parse_responses(t, doc, &e.responses) {
        Ok(r) => r,
        Err(err) => return Err(err),
    };
    Ok(Endpoint::new(text_at(t, e.operation_id), parameters, responses))
}

fn parse_endpoints(t: &Vec<Token>, doc: &Document, es: &Vec<EndpointSyntax>) -> (r: Result<indexmap::IndexMap<HttpMethod, Endpoint>, CompileError>)
    ensures
        match r {
            Ok(m) => elab_endpoints(tokens_view(t@), document_view(*doc).schemas, crate::syntax::endpoints_syntax_view(es@), 0, Seq::empty())
                == Ok::<Seq<(HttpMethod, EndpointV)>, ErrorV>(endpoint_entries_view(endpoint_entries(m))),
            Err(err) => elab_endpoints(tokens_view(t@), document_view(*doc).schemas, crate::syntax::endpoints_syntax_view(es@), 0, Seq::empty())
                == Err::<Seq<(HttpMethod, EndpointV)>, ErrorV>(error_view(err)),
        },
{
    let ghost tv = tokens_view(t@);
    let ghost sv = document_view(*doc).schemas;
    let ghost ev = crate::syntax::endpoints_syntax_view(es@);
    let mut endpoints = new_endpoint_map();
    assert(endpoint_entries_view(endpoint_entries(endpoints)) =~= Seq::<(HttpMethod, EndpointV)>::empty());
    let mut k: usize = 0;
    while k < es.len()
        invariant
            k <= es.len(),
            tv == tokens_view(t@),
            sv == document_view(*doc).schemas,
            ev == crate::syntax::endpoints_syntax_view(es@),
            elab_endpoints(tv, sv, ev, 0, Seq::empty())
                == elab_endpoints(tv, sv, ev, k as int, endpoint_entries_view(endpoint_entries(endpoints))),
        decreases es.len() - k,
    {
        let endpoint = match parse_endpoint(t, doc, &es[k]) {
            Ok(x) => x,
            Err(err) => return Err(err),
        };
        proof {
            lemma_insert_endpoint_view(endpoint_entries(endpoints), es[k as int].method, endpoint);
        }
        insert_endpoint(&mut endpoints, es[k].method, endpoint);
        k = k + 1;
    }
    Ok(endpoints)
}

fn parse_paths(t: &Vec<Token>, doc: &Document, ps: &Vec<PathSyntax>) -> (r: Result<indexmap::IndexMap<String, Path>, CompileError>)
    ensures
        match r {
            Ok(m) => elab_paths(tokens_view(t@), document_view(*doc).schemas, crate::syntax::paths_syntax_view(ps@), 0, Seq::empty())
                == Ok::<Seq<(Seq<char>, PathV)>, ErrorV>(path_entries_view(path_entries(m))),
            Err(err) => elab_paths(tokens_view(t@), document_view(*doc).schemas, crate::syntax::paths_syntax_view(ps@), 0, Seq::empty())
                == Err::<Seq<(Seq<char>, PathV)>, ErrorV>(error_view(err)),
        },
{
    let ghost tv = tokens_view(t@);
    let ghost sv = document_view(*doc).schemas;
    let ghost pv = crate::syntax::paths_syntax_view(ps@);
    let mut paths = new_path_map();
    assert(path_entries_view(path_entries(paths)) =~= Seq::<(Seq<char>, PathV)>::empty());
    let mut k: usize = 0;
    while k < ps.len()
        invariant
            k <= ps.len(),
            tv == tokens_view(t@),
            sv == document_view(*doc).schemas,
            pv == crate::syntax::paths_syntax_view(ps@),
            elab_paths(tv, sv, pv, 0, Seq::empty()) == elab_paths(tv, sv, pv, k as int, path_entries_view(path_entries(paths))),
        decreases ps.len() - k,
    {
        let endpoints = match parse_endpoints(t, doc, &ps[k].endpoints) {
            Ok(x) => x,
            Err(err) => return Err(err),
        };
        let url = text_at(t, ps[k].url);
        let path = Path::new(endpoints);
        proof {
            lemma_insert_path_view(path_entries(paths), url@, path);
        }
        insert_path(&mut paths, url, path);
        k = k + 1;
    }
    Ok(paths)
}

fn parse_type(t: &Vec<Token>, doc: &Document, name: usize, ty: &TypeExpr) -> (r: Result<Schema, CompileError>)
    ensures
        match r {
            Ok(x) => elab_item(tokens_view(t@), document_view(*doc).schemas, ItemV::Type { name, ty: *ty })
                == Ok::<Elaborated, ErrorV>(Elaborated::Schema(crate::ast::schema_view(x))),
            Err(e) => elab_item(tokens_view(t@), document_view(*doc).schemas, ItemV::Type { name, ty: *ty })
                == Err::<Elaborated, ErrorV>(error_view(e)),
        },
{
    let definition = match parse_type_definition(t, doc, ty) {
        Ok(d) => d,
        Err(e) => return Err(e),
    };
    Ok(Schema::new(text_at(t, name), definition))
}

fn parse_schema(t: &Vec<Token>, doc: &Document, name: usize, body: &SchemaBody) -> (r: Result<Schema, CompileError>)
    ensures
        match r {
            Ok(x) => elab_item(tokens_view(t@), document_view(*doc).schemas,
                ItemV::Schema { name, body: crate::syntax::schema_body_view(*body) })
                == Ok::<Elaborated, ErrorV>(Elaborated::Schema(crate::ast::schema_view(x))),
            Err(e) => elab_item(tokens_view(t@), document_view(*doc).schemas,
                ItemV::Schema { name, body: crate::syntax::schema_body_view(*body) })
                == Err::<Elaborated, ErrorV>(error_view(e)),
        },
{
    let identifier = text_at(t, name);
    match body {
        SchemaBody::Fields(fs) => {
            let fields = match parse_fields(t, doc, fs) {
                Ok(f) => f,
                Err(e) => return Err(e),
            };
            let schema = Schema::new(identifier, ReferenceOr::Actual(Definition::Object(fields)));
            assert(schema_view(schema) == SchemaV { identifier: schema.identifier@, definition: reference_or_view(schema.definition) });
            Ok(schema)
        },
        SchemaBody::Alias(_) => {
            let mut message = identifier;
            message.append(" was not an object");
            Err(CompileError::Invalid(message))
        },
    }
}

fn parse_api(t: &Vec<Token>, doc: &Document, name: usize, version: usize, paths: &Vec<PathSyntax>) -> (r: Result<API, CompileError>)
    ensures
        match r {
            Ok(x) => elab_item(tokens_view(t@), document_view(*doc).schemas,
                ItemV::Api { name, version, paths: crate::syntax::paths_syntax_view(paths@) })
                == Ok::<Elaborated, ErrorV>(Elaborated::Api(crate::ast::api_view(x))),
            Err(e) => elab_item(tokens_view(t@), document_view(*doc).schemas,
                ItemV::Api { name, version, paths: crate::syntax::paths_syntax_view(paths@) })
                == Err::<Elaborated, ErrorV>(error_view(e)),
        },
{
    let map = match parse_paths(t, doc, paths) {
        Ok(m) => m,
        Err(e) => return Err(e),
    };
    Ok(API::new(text_at(t, name), text_at(t, version), map))
}

/// What an item adds to a document: the document with the item's schema or API added.
pub open spec fn with_item(doc: DocumentV, added: Elaborated) -> DocumentV {
    match added {
        Elaborated::Schema(s) => DocumentV { schemas: doc.schemas.push(s), ..doc },
        Elaborated::Api(a) => DocumentV { apis: doc.apis.push(a), ..doc },
    }
}

/// Adds what one item means to the document.
fn add_item(t: &Vec<Token>, doc: &mut Document, item: &Item) -> (r: Result<(), CompileError>)
    ensures
        match r {
            Ok(_) => match elab_item(tokens_view(t@), document_view(*old(doc)).schemas, item_view(*item)) {
                Ok(added) => document_view(*final(doc)) == with_item(document_view(*old(doc)), added),
                Err(_) => false,
            },
            Err(e) => elab_item(tokens_view(t@), document_view(*old(doc)).schemas, item_view(*item))
                == Err::<Elaborated, ErrorV>(error_view(e)),
        },
{
    let ghost before = document_view(*doc);
    match item {
        Item::Type { name, ty } => {
            let schema = match parse_type(t, doc, *name, ty) {
                Ok(s) => s,
                Err(e) => return Err(e),
            };
            let ghost sv = crate::ast::schema_view(schema);
            doc.schemas.push(Rc::new(schema));
            assert(document_view(*doc).schemas =~= before.schemas.push(sv));
        },
        Item::Schema { name, body } => {
            let schema = match parse_schema(t, doc, *name, body) {
                Ok(s) => s,
                Err(e) => return Err(e),
            };
            let ghost sv = crate::ast::schema_view(schema);
            doc.schemas.push(Rc::new(schema));
            assert(document_view(*doc).schemas =~= before.schemas.push(sv));
        },
        Item::Api { name, version, paths } => {
            let api = match parse_api(t, doc, *name, *version, paths) {
                Ok(a) => a,
                Err(e) => return Err(e),
            };
            let ghost av = crate::ast::api_view(api);
            doc.apis.push(api);
            assert(document_view(*doc).apis =~= before.apis.push(av));
        },
    }
    Ok(())
}

/// The document made of the items, elaborated in order.
fn parse_tree(t: &Vec<Token>, items: &Vec<Item>) -> (r: Result<Document, CompileError>)
    ensures
        match r {
            Ok(d) => elaborate(tokens_view(t@), items_view(items@)) == Ok::<DocumentV, ErrorV>(document_view(d)),
            Err(e) => elaborate(tokens_view(t@), items_view(items@)) == Err::<DocumentV, ErrorV>(error_view(e)),
        },
{
    let ghost tv = tokens_view(t@);
    let ghost iv = items_view(items@);
    let mut api_script = Document { schemas: Vec::new(), apis: Vec::new() };
    assert(document_view(api_script).schemas =~= Seq::<SchemaV>::empty());
    assert(document_view(api_script).apis =~= Seq::<ApiV>::empty());
    let mut k: usize = 0;
    while k < items.len()
        invariant
            k <= items.len(),
            tv == tokens_view(t@),
            iv == items_view(items@),
            elaborate(tv, iv) == elab_items(tv, iv, k as int, document_view(api_script)),
        decreases items.len() - k,
    {
        assert(iv[k as int] == item_view(items@[k as int]));
        match add_item(t, &mut api_script, &items[k]) {
            Ok(_) => {},
            Err(e) => return Err(e),
        }
        k = k + 1;
    }
    Ok(api_script)
}

fn token_rule_of(kind: TokenKind) -> (r: Rule)
    ensures
        r == token_rule(kind),
{
    match kind {
        TokenKind::Identifier => Rule::Identifier,
        TokenKind::String => Rule::String,
        TokenKind::Number => Rule::NumberValue,
        TokenKind::Format => Rule::Format,
        TokenKind::Colon => Rule::Colon,
        TokenKind::Comma => Rule::Comma,
        TokenKind::OpenBrace => Rule::OpenBrace,
        TokenKind::CloseBrace => Rule::CloseBrace,
        TokenKind::OpenBracket => Rule::OpenBracket,
        TokenKind::CloseBracket => Rule::CloseBracket,
        TokenKind::OpenParen => Rule::OpenParen,
        TokenKind::CloseParen => Rule::CloseParen,
        TokenKind::At => Rule::At,
        TokenKind::Question => Rule::Question,
    }
}

/// The error reported for a place where the tokens depart from the grammar.
fn syntax_error(t: &Vec<Token>, e: SyntaxError) -> (r: CompileError)
    ensures
        error_view(r) == syntax_error_view(tokens_view(t@), e),
{
    if e.at < t.len() {
        let found = &t[e.at];
        CompileError::Syntax(ParseError::expected(e.expected, token_rule_of(found.kind), crate::util::Span { start: found.start, end: found.end }))
    } else {
        CompileError::Syntax(ParseError::none(e.expected))
    }
}

/// Reads a source text into a document.
pub fn parse(input: &str) -> (r: Result<Document, CompileError>)
    ensures
        match parse_spec(input@) {
            Ok(d) => r is Ok && document_view(r->Ok_0) == d,
            Err(e) => r is Err && error_view(r->Err_0) == e,
        },
{
    let tokens = match tokenize(input) {
        Ok(t) => t,
        Err(e) => return Err(CompileError::Syntax(e)),
    };
    let items = match parse_items(&tokens) {
        Ok(i) => i,
        Err(e) => return Err(syntax_error(&tokens, e)),
    };
    parse_tree(&tokens, &items)
}

} // verus!
