//! The grammar of the source language, over tokens.
//!
//! ```text
//! ApiScript      = Item*
//! Item           = Type | Schema | Api
//! Type           = "type" Identifier ":" TypeDefinition
//! Schema         = "schema" Identifier ( "{" Field* "}" | ":" TypeDefinition )
//! Field          = Identifier ":" TypeDefinition "?"?
//! TypeDefinition = "[" TypeDefinition "]" | Primitive Format? | Identifier
//! Primitive      = "string" | "number" | "integer" | "boolean"
//! Api            = Annotation* "api" String String "{" ( Server | ApiPath )* "}"
//! Server         = "server" String
//! ApiPath        = "path" String "{" Endpoint* "}"
//! Endpoint       = Annotation* Method Identifier "(" ( Parameter ( "," Parameter )* )? ")"
//!                  "{" Response* "}"
//! Method         = "GET" | "PUT" | "POST" | "PATCH" | "DELETE"
//! Parameter      = Annotation* Identifier ":" TypeDefinition
//! Response       = Annotation* Number ":" TypeDefinition
//! Annotation     = "@" Identifier ( "(" Number ")" )?
//! ```
//!
//! The syntax tree refers to tokens by their position in the token sequence.
use vstd::prelude::*;

use crate::ast::{HttpMethod, Kind};
use crate::lexer::{tokens_view, Token, TokenKind, TokenV};
use crate::text::same_text;
use crate::util::Rule;

verus! {

/// A type as written: a reference to a schema by name, a list, or a
/// primitive with an optional format. Lists and primitives carry the
/// character positions of their text.
#[derive(Debug)]
pub enum TypeExpr {
    Named { token: usize },
    List { element: Box<TypeExpr>, start: usize, end: usize },
    Primitive { kind: Kind, format: Option<usize>, start: usize, end: usize },
}

/// `@name` or `@name(value)`.
#[derive(Debug, Clone, Copy, PartialEq, Eq, Structural)]
pub struct Annotation {
    pub name: usize,
    pub value: Option<usize>,
}

#[derive(Debug)]
pub struct FieldSyntax {
    pub name: usize,
    pub ty: TypeExpr,
    pub optional: bool,
}

#[derive(Debug)]
pub enum SchemaBody {
    Fields(Vec<FieldSyntax>),
    Alias(TypeExpr),
}

#[derive(Debug)]
pub struct ParameterSyntax {
    pub annotations: Vec<Annotation>,
    pub name: usize,
    pub ty: TypeExpr,
}

#[derive(Debug)]
pub struct ResponseSyntax {
    pub code: usize,
    pub ty: TypeExpr,
}

#[derive(Debug)]
pub struct EndpointSyntax {
    pub method: HttpMethod,
    pub operation_id: usize,
    pub parameters: Vec<ParameterSyntax>,
    pub responses: Vec<ResponseSyntax>,
}

#[derive(Debug)]
pub struct PathSyntax {
    pub url: usize,
    pub endpoints: Vec<EndpointSyntax>,
}

#[derive(Debug)]
pub enum Item {
    Type { name: usize, ty: TypeExpr },
    Schema { name: usize, body: SchemaBody },
    Api { name: usize, version: usize, paths: Vec<PathSyntax> },
}

/// A place where the grammar expected `expected` and found another token
/// (or, at the end of the tokens, none).
#[derive(Debug, Clone, Copy, PartialEq, Eq, Structural)]
pub struct SyntaxError {
    pub expected: Rule,
    pub at: usize,
}

// Views of the syntax tree: vectors are seen as sequences.

pub enum SchemaBodyV {
    Fields(Seq<FieldSyntax>),
    Alias(TypeExpr),
}

pub struct ParameterSyntaxV {
    pub annotations: Seq<Annotation>,
    pub name: usize,
    pub ty: TypeExpr,
}

pub struct EndpointSyntaxV {
    pub method: HttpMethod,
    pub operation_id: usize,
    pub parameters: Seq<ParameterSyntaxV>,
    pub responses: Seq<ResponseSyntax>,
}

pub struct PathSyntaxV {
    pub url: usize,
    pub endpoints: Seq<EndpointSyntaxV>,
}

pub enum ItemV {
    Type { name: usize, ty: TypeExpr },
    Schema { name: usize, body: SchemaBodyV },
    Api { name: usize, version: usize, paths: Seq<PathSyntaxV> },
}

pub open spec fn schema_body_view(b: SchemaBody) -> SchemaBodyV {
    match b {
        SchemaBody::Fields(fs) => SchemaBodyV::Fields(fs@),
        SchemaBody::Alias(ty) => SchemaBodyV::Alias(ty),
    }
}

pub open spec fn parameter_syntax_view(p: ParameterSyntax) -> ParameterSyntaxV {
    ParameterSyntaxV { annotations: p.annotations@, name: p.name, ty: p.ty }
}

pub open spec fn parameters_syntax_view(ps: Seq<ParameterSyntax>) -> Seq<ParameterSyntaxV> {
    ps.map_values(|p: ParameterSyntax| parameter_syntax_view(p))
}

pub open spec fn endpoint_syntax_view(e: EndpointSyntax) -> EndpointSyntaxV {
    EndpointSyntaxV {
        method: e.method,
        operation_id: e.operation_id,
        parameters: parameters_syntax_view(e.parameters@),
        responses: e.responses@,
    }
}

pub open spec fn endpoints_syntax_view(es: Seq<EndpointSyntax>) -> Seq<EndpointSyntaxV> {
    es.map_values(|e: EndpointSyntax| endpoint_syntax_view(e))
}

pub open spec fn path_syntax_view(p: PathSyntax) -> PathSyntaxV {
    PathSyntaxV { url: p.url, endpoints: endpoints_syntax_view(p.endpoints@) }
}

pub open spec fn paths_syntax_view(ps: Seq<PathSyntax>) -> Seq<PathSyntaxV> {
    ps.map_values(|p: PathSyntax| path_syntax_view(p))
}

pub open spec fn item_view(item: Item) -> ItemV {
    match item {
        Item::Type { name, ty } => ItemV::Type { name, ty },
        Item::Schema { name, body } => ItemV::Schema { name, body: schema_body_view(body) },
        Item::Api { name, version, paths } => ItemV::Api { name, version, paths: paths_syntax_view(paths@) },
    }
}

pub open spec fn items_view(items: Seq<Item>) -> Seq<ItemV> {
    items.map_values(|i: Item| item_view(i))
}

// ---------------------------------------------------------------------------
// The grammar. Each function reads from token position `i` and gives what it
// read and the position after it, or the first place where the tokens depart
// from the grammar.
// ---------------------------------------------------------------------------

pub type Parsed<A> = Result<(A, int), SyntaxError>;

pub open spec fn fail<A>(expected: Rule, at: int) -> Parsed<A> {
    Err(SyntaxError { expected, at: at as usize })
}

/// Whether the token at `i` is of the given kind.
pub open spec fn kind_at(t: Seq<TokenV>, i: int, kind: TokenKind) -> bool {
    0 <= i < t.len() && t[i].kind == kind
}

/// Whether the token at `i` is the identifier `w`.
pub open spec fn word_at(t: Seq<TokenV>, i: int, w: Seq<char>) -> bool {
    kind_at(t, i, TokenKind::Identifier) && t[i].text == w
}

/// The primitive that a word names, if any.
pub open spec fn primitive_named(w: Seq<char>) -> Option<Kind> {
    if w == "string"@ {
        Some(Kind::String)
    } else if w == "number"@ {
        Some(Kind::Number)
    } else if w == "integer"@ {
        Some(Kind::Integer)
    } else if w == "boolean"@ {
        Some(Kind::Boolean)
    } else {
        None
    }
}

/// The HTTP method that a word names, if any.
pub open spec fn method_named(w: Seq<char>) -> Option<HttpMethod> {
    if w == "GET"@ {
        Some(HttpMethod::Get)
    } else if w == "PUT"@ {
        Some(HttpMethod::Put)
    } else if w == "POST"@ {
        Some(HttpMethod::Post)
    } else if w == "PATCH"@ {
        Some(HttpMethod::Patch)
    } else if w == "DELETE"@ {
        Some(HttpMethod::Delete)
    } else {
        None
    }
}

/// `x` followed by what `rest` read.
pub open spec fn cons<A>(x: A, rest: Parsed<Seq<A>>) -> Parsed<Seq<A>> {
    match rest {
        Ok((xs, j)) => Ok((seq![x] + xs, j)),
        Err(e) => Err(e),
    }
}

/// What was read so far followed by what `rest` read.
pub open spec fn prefixed<A>(done: Seq<A>, rest: Parsed<Seq<A>>) -> Parsed<Seq<A>> {
    match rest {
        Ok((xs, j)) => Ok((done + xs, j)),
        Err(e) => Err(e),
    }
}

pub proof fn lemma_prefixed_cons<A>(done: Seq<A>, x: A, rest: Parsed<Seq<A>>)
    ensures
        prefixed(done, cons(x, rest)) == prefixed(done.push(x), rest),
{
    if let Ok((xs, j)) = rest {
        assert(done + (seq![x] + xs) == done.push(x) + xs);
    }
}

pub proof fn lemma_prefixed_empty<A>(done: Seq<A>, j: int)
    ensures
        prefixed(done, Ok((Seq::<A>::empty(), j))) == Ok::<(Seq<A>, int), SyntaxError>((done, j)),
{
    assert(done + Seq::<A>::empty() == done);
}

pub open spec fn p_type_expr(t: Seq<TokenV>, i: int) -> Parsed<TypeExpr>
    decreases t.len() - i,
{
    if i < 0 || i >= t.len() {
        fail(Rule::TypeDefinition, i)
    } else if t[i].kind == TokenKind::OpenBracket {
        match p_type_expr(t, i + 1) {
            Ok((element, j)) => if kind_at(t, j, TokenKind::CloseBracket) {
                Ok((
                    TypeExpr::List {
                        element: Box::new(element),
                        start: t[i].start as usize,
                        end: t[j].end as usize,
                    },
                    j + 1,
                ))
            } else {
                fail(Rule::CloseBracket, j)
            },
            Err(e) => Err(e),
        }
    } else if t[i].kind == TokenKind::Identifier {
        match primitive_named(t[i].text) {
            Some(kind) => if kind_at(t, i + 1, TokenKind::Format) {
                Ok((
                    TypeExpr::Primitive {
                        kind,
                        format: Some((i + 1) as usize),
                        start: t[i].start as usize,
                        end: t[i + 1].end as usize,
                    },
                    i + 2,
                ))
            } else {
                Ok((
                    TypeExpr::Primitive {
                        kind,
                        format: None,
                        start: t[i].start as usize,
                        end: t[i].end as usize,
                    },
                    i + 1,
                ))
            },
            None => Ok((TypeExpr::Named { token: i as usize }, i + 1)),
        }
    } else {
        fail(Rule::TypeDefinition, i)
    }
}

pub proof fn lemma_type_expr_advances(t: Seq<TokenV>, i: int)
    requires
        0 <= i,
    ensures
        p_type_expr(t, i) matches Ok((_, j)) ==> i < j <= t.len(),
    decreases t.len() - i,
{
    if 0 <= i < t.len() && t[i].kind == TokenKind::OpenBracket {
        lemma_type_expr_advances(t, i + 1);
    }
}

/// An annotation, with `@` at `i`.
pub open spec fn p_annotation(t: Seq<TokenV>, i: int) -> Parsed<Annotation> {
    if !kind_at(t, i + 1, TokenKind::Identifier) {
        fail(Rule::Identifier, i + 1)
    } else if kind_at(t, i + 2, TokenKind::OpenParen) {
        if !kind_at(t, i + 3, TokenKind::Number) {
            fail(Rule::NumberValue, i + 3)
        } else if !kind_at(t, i + 4, TokenKind::CloseParen) {
            fail(Rule::CloseParen, i + 4)
        } else {
            Ok((Annotation { name: (i + 1) as usize, value: Some((i + 3) as usize) }, i + 5))
        }
    } else {
        Ok((Annotation { name: (i + 1) as usize, value: None }, i + 2))
    }
}

/// The annotations from `i` on.
pub open spec fn p_annotations(t: Seq<TokenV>, i: int) -> Parsed<Seq<Annotation>>
    decreases t.len() - i,
{
    if 0 <= i && kind_at(t, i, TokenKind::At) {
        match p_annotation(t, i) {
            Ok((a, j)) => cons(a, p_annotations(t, j)),
            Err(e) => Err(e),
        }
    } else {
        Ok((Seq::empty(), i))
    }
}

pub proof fn lemma_annotations_advance(t: Seq<TokenV>, i: int)
    requires
        0 <= i <= t.len(),
    ensures
        p_annotations(t, i) matches Ok((_, j)) ==> i <= j <= t.len(),
    decreases t.len() - i,
{
    if kind_at(t, i, TokenKind::At) {
        if let Ok((a, j)) = p_annotation(t, i) {
            lemma_annotations_advance(t, j);
        }
    }
}

pub open spec fn p_field(t: Seq<TokenV>, i: int) -> Parsed<FieldSyntax> {
    if !kind_at(t, i, TokenKind::Identifier) {
        fail(Rule::Field, i)
    } else if !kind_at(t, i + 1, TokenKind::Colon) {
        fail(Rule::Colon, i + 1)
    } else {
        match p_type_expr(t, i + 2) {
            Ok((ty, j)) => if kind_at(t, j, TokenKind::Question) {
                Ok((FieldSyntax { name: i as usize, ty, optional: true }, j + 1))
            } else {
                Ok((FieldSyntax { name: i as usize, ty, optional: false }, j))
            },
            Err(e) => Err(e),
        }
    }
}

pub proof fn lemma_field_advances(t: Seq<TokenV>, i: int)
    requires
        0 <= i,
    ensures
        p_field(t, i) matches Ok((_, j)) ==> i < j <= t.len(),
{
    lemma_type_expr_advances(t, i + 2);
}

/// The fields from `i` up to a closing brace.
pub open spec fn p_fields(t: Seq<TokenV>, i: int) -> Parsed<Seq<FieldSyntax>>
    decreases t.len() - i,
{
    if i < 0 || kind_at(t, i, TokenKind::CloseBrace) {
        Ok((Seq::empty(), i))
    } else {
        match p_field(t, i) {
            Ok((f, j)) => {
                proof {
                    lemma_field_advances(t, i);
                }
                cons(f, p_fields(t, j))
            },
            Err(e) => Err(e),
        }
    }
}

pub proof fn lemma_fields_advance(t: Seq<TokenV>, i: int)
    requires
        0 <= i <= t.len(),
    ensures
        p_fields(t, i) matches Ok((_, j)) ==> i <= j <= t.len(),
    decreases t.len() - i,
{
    if !kind_at(t, i, TokenKind::CloseBrace) {
        lemma_field_advances(t, i);
        if let Ok((f, j)) = p_field(t, i) {
            lemma_fields_advance(t, j);
        }
    }
}

pub open spec fn p_parameter(t: Seq<TokenV>, i: int) -> Parsed<ParameterSyntaxV> {
    match p_annotations(t, i) {
        Ok((annotations, j)) => if !kind_at(t, j, TokenKind::Identifier) {
            fail(Rule::Identifier, j)
        } else if !kind_at(t, j + 1, TokenKind::Colon) {
            fail(Rule::Colon, j + 1)
        } else {
            match p_type_expr(t, j + 2) {
                Ok((ty, k)) => Ok((ParameterSyntaxV { annotations, name: j as usize, ty }, k)),
                Err(e) => Err(e),
            }
        },
        Err(e) => Err(e),
    }
}

pub proof fn lemma_parameter_advances(t: Seq<TokenV>, i: int)
    requires
        0 <= i <= t.len(),
    ensures
        p_parameter(t, i) matches Ok((_, j)) ==> i < j <= t.len(),
{
    lemma_annotations_advance(t, i);
    if let Ok((a, j)) = p_annotations(t, i) {
        lemma_type_expr_advances(t, j + 2);
    }
}

/// The parameters after the first one: each after a comma, up to the closing parenthesis.
pub open spec fn p_more_parameters(t: Seq<TokenV>, i: int) -> Parsed<Seq<ParameterSyntaxV>>
    decreases t.len() - i,
{
    if i < 0 || i > t.len() {
        fail(Rule::CloseParen, i)
    } else if kind_at(t, i, TokenKind::Comma) {
        match p_parameter(t, i + 1) {
            Ok((p, j)) => {
                proof {
                    lemma_parameter_advances(t, i + 1);
                }
                cons(p, p_more_parameters(t, j))
            },
            Err(e) => Err(e),
        }
    } else if kind_at(t, i, TokenKind::CloseParen) {
        Ok((Seq::empty(), i + 1))
    } else {
        fail(Rule::CloseParen, i)
    }
}

/// A parameter list, with `(` at `i`, up to and including the closing parenthesis.
pub open spec fn p_parameters(t: Seq<TokenV>, i: int) -> Parsed<Seq<ParameterSyntaxV>> {
    if kind_at(t, i + 1, TokenKind::CloseParen) {
        Ok((Seq::empty(), i + 2))
    } else {
        match p_parameter(t, i + 1) {
            Ok((p, j)) => cons(p, p_more_parameters(t, j)),
            Err(e) => Err(e),
        }
    }
}

pub proof fn lemma_more_parameters_advance(t: Seq<TokenV>, i: int)
    requires
        0 <= i <= t.len(),
    ensures
        p_more_parameters(t, i) matches Ok((_, j)) ==> i < j <= t.len(),
    decreases t.len() - i,
{
    if kind_at(t, i, TokenKind::Comma) {
        lemma_parameter_advances(t, i + 1);
        if let Ok((p, j)) = p_parameter(t, i + 1) {
            lemma_more_parameters_advance(t, j);
        }
    }
}

pub proof fn lemma_parameters_advance(t: Seq<TokenV>, i: int)
    requires
        0 <= i < t.len(),
    ensures
        p_parameters(t, i) matches Ok((_, j)) ==> i < j <= t.len(),
{
    if !kind_at(t, i + 1, TokenKind::CloseParen) {
        lemma_parameter_advances(t, i + 1);
        if let Ok((p, j)) = p_parameter(t, i + 1) {
            lemma_more_parameters_advance(t, j);
        }
    }
}

pub open spec fn p_response(t: Seq<TokenV>, i: int) -> Parsed<ResponseSyntax> {
    match p_annotations(t, i) {
        Ok((_annotations, j)) => if !kind_at(t, j, TokenKind::Number) {
            fail(Rule::HttpCode, j)
        } else if !kind_at(t, j + 1, TokenKind::Colon) {
            fail(Rule::Colon, j + 1)
        } else {
            match p_type_expr(t, j + 2) {
                Ok((ty, k)) => Ok((ResponseSyntax { code: j as usize, ty }, k)),
                Err(e) => Err(e),
            }
        },
        Err(e) => Err(e),
    }
}

pub proof fn lemma_response_advances(t: Seq<TokenV>, i: int)
    requires
        0 <= i <= t.len(),
    ensures
        p_response(t, i) matches Ok((_, j)) ==> i < j <= t.len(),
{
    lemma_annotations_advance(t, i);
    if let Ok((a, j)) = p_annotations(t, i) {
        lemma_type_expr_advances(t, j + 2);
    }
}

/// The responses from `i` up to a closing brace.
pub open spec fn p_responses(t: Seq<TokenV>, i: int) -> Parsed<Seq<ResponseSyntax>>
    decreases t.len() - i,
{
    if i < 0 || i > t.len() || kind_at(t, i, TokenKind::CloseBrace) {
        Ok((Seq::empty(), i))
    } else {
        match p_response(t, i) {
            Ok((r, j)) => {
                proof {
                    lemma_response_advances(t, i);
                }
                cons(r, p_responses(t, j))
            },
            Err(e) => Err(e),
        }
    }
}

pub proof fn lemma_responses_advance(t: Seq<TokenV>, i: int)
    requires
        0 <= i <= t.len(),
    ensures
        p_responses(t, i) matches Ok((_, j)) ==> i <= j <= t.len(),
    decreases t.len() - i,
{
    if !kind_at(t, i, TokenKind::CloseBrace) {
        lemma_response_advances(t, i);
        if let Ok((r, j)) = p_response(t, i) {
            lemma_responses_advance(t, j);
        }
    }
}

pub open spec fn p_endpoint(t: Seq<TokenV>, i: int) -> Parsed<EndpointSyntaxV> {
    match p_annotations(t, i) {
        Ok((_annotations, j)) => if !kind_at(t, j, TokenKind::Identifier) || method_named(t[j].text) is None {
            fail(Rule::Method, j)
        } else if !kind_at(t, j + 1, TokenKind::Identifier) {
            fail(Rule::Identifier, j + 1)
        } else if !kind_at(t, j + 2, TokenKind::OpenParen) {
            fail(Rule::OpenParen, j + 2)
        } else {
            match p_parameters(t, j + 2) {
                Ok((parameters, k)) => if !kind_at(t, k, TokenKind::OpenBrace) {
                    fail(Rule::OpenBrace, k)
                } else {
                    match p_responses(t, k + 1) {
                        Ok((responses, m)) => if !kind_at(t, m, TokenKind::CloseBrace) {
                            fail(Rule::CloseBrace, m)
                        } else {
                            Ok((
                                EndpointSyntaxV {
                                    method: method_named(t[j].text)->0,
                                    operation_id: (j + 1) as usize,
                                    parameters,
                                    responses,
                                },
                                m + 1,
                            ))
                        },
                        Err(e) => Err(e),
                    }
                },
                Err(e) => Err(e),
            }
        },
        Err(e) => Err(e),
    }
}

pub proof fn lemma_endpoint_advances(t: Seq<TokenV>, i: int)
    requires
        0 <= i <= t.len(),
    ensures
        p_endpoint(t, i) matches Ok((_, j)) ==> i < j <= t.len(),
{
    lemma_annotations_advance(t, i);
    if let Ok((a, j)) = p_annotations(t, i) {
        if kind_at(t, j + 2, TokenKind::OpenParen) {
            lemma_parameters_advance(t, j + 2);
            if let Ok((ps, k)) = p_parameters(t, j + 2) {
                if kind_at(t, k, TokenKind::OpenBrace) {
                    lemma_responses_advance(t, k + 1);
                }
            }
        }
    }
}

/// The endpoints from `i` up to a closing brace.
pub open spec fn p_endpoints(t: Seq<TokenV>, i: int) -> Parsed<Seq<EndpointSyntaxV>>
    decreases t.len() - i,
{
    if i < 0 || i > t.len() || kind_at(t, i, TokenKind::CloseBrace) {
        Ok((Seq::empty(), i))
    } else {
        match p_endpoint(t, i) {
            Ok((e, j)) => {
                proof {
                    lemma_endpoint_advances(t, i);
                }
                cons(e, p_endpoints(t, j))
            },
            Err(e) => Err(e),
        }
    }
}

pub proof fn lemma_endpoints_advance(t: Seq<TokenV>, i: int)
    requires
        0 <= i <= t.len(),
    ensures
        p_endpoints(t, i) matches Ok((_, j)) ==> i <= j <= t.len(),
    decreases t.len() - i,
{
    if !kind_at(t, i, TokenKind::CloseBrace) {
        lemma_endpoint_advances(t, i);
        if let Ok((e, j)) = p_endpoint(t, i) {
            lemma_endpoints_advance(t, j);
        }
    }
}

/// A path, with the word `path` at `i`.
pub open spec fn p_path(t: Seq<TokenV>, i: int) -> Parsed<PathSyntaxV> {
    if !kind_at(t, i + 1, TokenKind::String) {
        fail(Rule::String, i + 1)
    } else if !kind_at(t, i + 2, TokenKind::OpenBrace) {
        fail(Rule::OpenBrace, i + 2)
    } else {
        match p_endpoints(t, i + 3) {
            Ok((endpoints, j)) => if !kind_at(t, j, TokenKind::CloseBrace) {
                fail(Rule::CloseBrace, j)
            } else {
                Ok((PathSyntaxV { url: (i + 1) as usize, endpoints }, j + 1))
            },
            Err(e) => Err(e),
        }
    }
}

pub proof fn lemma_path_advances(t: Seq<TokenV>, i: int)
    requires
        0 <= i < t.len(),
    ensures
        p_path(t, i) matches Ok((_, j)) ==> i < j <= t.len(),
{
    if kind_at(t, i + 2, TokenKind::OpenBrace) {
        lemma_endpoints_advance(t, i + 3);
    }
}

/// The servers and paths of an API from `i` up to a closing brace; servers are passed over.
pub open spec fn p_api_body(t: Seq<TokenV>, i: int) -> Parsed<Seq<PathSyntaxV>>
    decreases t.len() - i,
{
    if i < 0 || i > t.len() || kind_at(t, i, TokenKind::CloseBrace) {
        Ok((Seq::empty(), i))
    } else if word_at(t, i, "server"@) {
        if !kind_at(t, i + 1, TokenKind::String) {
            fail(Rule::String, i + 1)
        } else {
            p_api_body(t, i + 2)
        }
    } else if word_at(t, i, "path"@) {
        match p_path(t, i) {
            Ok((p, j)) => {
                proof {
                    lemma_path_advances(t, i);
                }
                cons(p, p_api_body(t, j))
            },
            Err(e) => Err(e),
        }
    } else {
        fail(Rule::ApiPath, i)
    }
}

pub proof fn lemma_api_body_advances(t: Seq<TokenV>, i: int)
    requires
        0 <= i <= t.len(),
    ensures
        p_api_body(t, i) matches Ok((_, j)) ==> i <= j <= t.len(),
    decreases t.len() - i,
{
    if !kind_at(t, i, TokenKind::CloseBrace) {
        if word_at(t, i, "server"@) {
            if kind_at(t, i + 1, TokenKind::String) {
                lemma_api_body_advances(t, i + 2);
            }
        } else if word_at(t, i, "path"@) {
            lemma_path_advances(t, i);
            if let Ok((p, j)) = p_path(t, i) {
                lemma_api_body_advances(t, j);
            }
        }
    }
}

/// An API, its annotations starting at `i`.
pub open spec fn p_api(t: Seq<TokenV>, i: int) -> Parsed<ItemV> {
    match p_annotations(t, i) {
        Ok((_annotations, j)) => if !word_at(t, j, "api"@) {
            fail(Rule::Api, j)
        } else if !kind_at(t, j + 1, TokenKind::String) {
            fail(Rule::String, j + 1)
        } else if !kind_at(t, j + 2, TokenKind::String) {
            fail(Rule::String, j + 2)
        } else if !kind_at(t, j + 3, TokenKind::OpenBrace) {
            fail(Rule::OpenBrace, j + 3)
        } else {
            match p_api_body(t, j + 4) {
                Ok((paths, k)) => if !kind_at(t, k, TokenKind::CloseBrace) {
                    fail(Rule::CloseBrace, k)
                } else {
                    Ok((ItemV::Api { name: (j + 1) as usize, version: (j + 2) as usize, paths }, k + 1))
                },
                Err(e) => Err(e),
            }
        },
        Err(e) => Err(e),
    }
}

/// A type alias, with the word `type` at `i`.
pub open spec fn p_type_item(t: Seq<TokenV>, i: int) -> Parsed<ItemV> {
    if !kind_at(t, i + 1, TokenKind::Identifier) {
        fail(Rule::Identifier, i + 1)
    } else if !kind_at(t, i + 2, TokenKind::Colon) {
        fail(Rule::Colon, i + 2)
    } else {
        match p_type_expr(t, i + 3) {
            Ok((ty, j)) => Ok((ItemV::Type { name: (i + 1) as usize, ty }, j)),
            Err(e) => Err(e),
        }
    }
}

/// A schema, with the word `schema` at `i`.
pub open spec fn p_schema_item(t: Seq<TokenV>, i: int) -> Parsed<ItemV> {
    if !kind_at(t, i + 1, TokenKind::Identifier) {
        fail(Rule::Identifier, i + 1)
    } else if kind_at(t, i + 2, TokenKind::OpenBrace) {
        match p_fields(t, i + 3) {
            Ok((fields, j)) => if !kind_at(t, j, TokenKind::CloseBrace) {
                fail(Rule::CloseBrace, j)
            } else {
                Ok((ItemV::Schema { name: (i + 1) as usize, body: SchemaBodyV::Fields(fields) }, j + 1))
            },
            Err(e) => Err(e),
        }
    } else if kind_at(t, i + 2, TokenKind::Colon) {
        match p_type_expr(t, i + 3) {
            Ok((ty, j)) => Ok((ItemV::Schema { name: (i + 1) as usize, body: SchemaBodyV::Alias(ty) }, j)),
            Err(e) => Err(e),
        }
    } else {
        fail(Rule::OpenBrace, i + 2)
    }
}

/// An item starting at `i`.
pub open spec fn p_item(t: Seq<TokenV>, i: int) -> Parsed<ItemV> {
    if word_at(t, i, "type"@) {
        p_type_item(t, i)
    } else if word_at(t, i, "schema"@) {
        p_schema_item(t, i)
    } else if word_at(t, i, "api"@) || kind_at(t, i, TokenKind::At) {
        p_api(t, i)
    } else {
        fail(Rule::EOI, i)
    }
}

pub proof fn lemma_item_advances(t: Seq<TokenV>, i: int)
    requires
        0 <= i < t.len(),
    ensures
        p_item(t, i) matches Ok((_, j)) ==> i < j <= t.len(),
{
    if word_at(t, i, "type"@) {
        lemma_type_expr_advances(t, i + 3);
    } else if word_at(t, i, "schema"@) {
        if kind_at(t, i + 2, TokenKind::OpenBrace) {
            lemma_fields_advance(t, i + 3);
        } else {
            lemma_type_expr_advances(t, i + 3);
        }
    } else {
        lemma_annotations_advance(t, i);
        if let Ok((a, j)) = p_annotations(t, i) {
            if word_at(t, j, "api"@) && kind_at(t, j + 3, TokenKind::OpenBrace) {
                lemma_api_body_advances(t, j + 4);
            }
        }
    }
}

/// The items from `i` to the end of the tokens.
pub open spec fn p_items(t: Seq<TokenV>, i: int) -> Parsed<Seq<ItemV>>
    decreases t.len() - i,
{
    if i < 0 || i >= t.len() {
        Ok((Seq::empty(), i))
    } else {
        match p_item(t, i) {
            Ok((item, j)) => {
                proof {
                    lemma_item_advances(t, i);
                }
                cons(item, p_items(t, j))
            },
            Err(e) => Err(e),
        }
    }
}

/// The items of a whole token sequence.
pub open spec fn p_script(t: Seq<TokenV>) -> Result<Seq<ItemV>, SyntaxError> {
    match p_items(t, 0) {
        Ok((items, _)) => Ok(items),
        Err(e) => Err(e),
    }
}

// ---------------------------------------------------------------------------
// The parser. Each function follows the grammar function of the same name.
// ---------------------------------------------------------------------------

pub type Step<A> = Result<(A, usize), SyntaxError>;

/// What a parser step read, seen through `f`.
pub open spec fn step_view<A, B>(r: Step<A>, f: spec_fn(A) -> B) -> Parsed<B> {
    match r {
        Ok((x, j)) => Ok((f(x), j as int)),
        Err(e) => Err(e),
    }
}

pub open spec fn plain<A>(r: Step<A>) -> Parsed<A> {
    step_view(r, |x: A| x)
}

pub open spec fn seq_of<A>(r: Step<Vec<A>>) -> Parsed<Seq<A>> {
    step_view(r, |v: Vec<A>| v@)
}

fn kind_is(t: &Vec<Token>, i: usize, kind: TokenKind) -> (b: bool)
    ensures
        b == kind_at(tokens_view(t@), i as int, kind),
{
    i < t.len() && t[i].kind == kind
}

fn word_is(t: &Vec<Token>, i: usize, w: &str) -> (b: bool)
    ensures
        b == word_at(tokens_view(t@), i as int, w@),
{
    kind_is(t, i, TokenKind::Identifier) && same_text(t[i].text.as_str(), w)
}

fn primitive_of(w: &String) -> (k: Option<Kind>)
    ensures
        k == primitive_named(w@),
{
    if same_text(w.as_str(), "string") {
        Some(Kind::String)
    } else if same_text(w.as_str(), "number") {
        Some(Kind::Number)
    } else if same_text(w.as_str(), "integer") {
        Some(Kind::Integer)
    } else if same_text(w.as_str(), "boolean") {
        Some(Kind::Boolean)
    } else {
        None
    }
}

fn method_of(w: &String) -> (m: Option<HttpMethod>)
    ensures
        m == method_named(w@),
{
    if same_text(w.as_str(), "GET") {
        Some(HttpMethod::Get)
    } else if same_text(w.as_str(), "PUT") {
        Some(HttpMethod::Put)
    } else if same_text(w.as_str(), "POST") {
        Some(HttpMethod::Post)
    } else if same_text(w.as_str(), "PATCH") {
        Some(HttpMethod::Patch)
    } else if same_text(w.as_str(), "DELETE") {
        Some(HttpMethod::Delete)
    } else {
        None
    }
}

fn parse_type_expr(t: &Vec<Token>, i: usize) -> (r: Step<TypeExpr>)
    requires
        i <= t.len(),
    ensures
        plain(r) == p_type_expr(tokens_view(t@), i as int),
        r matches Ok((_, j)) ==> i < j <= t.len(),
    decreases t.len() - i,
{
    if i >= t.len() {
        Err(SyntaxError { expected: Rule::TypeDefinition, at: i })
    } else if t[i].kind == TokenKind::OpenBracket {
        match parse_type_expr(t, i + 1) {
            Ok((element, j)) => if kind_is(t, j, TokenKind::CloseBracket) {
                Ok((TypeExpr::List { element: Box::new(element), start: t[i].start, end: t[j].end }, j + 1))
            } else {
                Err(SyntaxError { expected: Rule::CloseBracket, at: j })
            },
            Err(e) => Err(e),
        }
    } else if t[i].kind == TokenKind::Identifier {
        match primitive_of(&t[i].text) {
            Some(kind) => if kind_is(t, i + 1, TokenKind::Format) {
                Ok((TypeExpr::Primitive { kind, format: Some(i + 1), start: t[i].start, end: t[i + 1].end }, i + 2))
            } else {
                Ok((TypeExpr::Primitive { kind, format: None, start: t[i].start, end: t[i].end }, i + 1))
            },
            None => Ok((TypeExpr::Named { token: i }, i + 1)),
        }
    } else {
        Err(SyntaxError { expected: Rule::TypeDefinition, at: i })
    }
}

fn parse_annotation(t: &Vec<Token>, i: usize) -> (r: Step<Annotation>)
    requires
        i < t.len(),
    ensures
        plain(r) == p_annotation(tokens_view(t@), i as int),
{
    if !kind_is(t, i + 1, TokenKind::Identifier) {
        Err(SyntaxError { expected: Rule::Identifier, at: i + 1 })
    } else if kind_is(t, i + 2, TokenKind::OpenParen) {
        if !kind_is(t, i + 3, TokenKind::Number) {
            Err(SyntaxError { expected: Rule::NumberValue, at: i + 3 })
        } else if !kind_is(t, i + 4, TokenKind::CloseParen) {
            Err(SyntaxError { expected: Rule::CloseParen, at: i + 4 })
        } else {
            Ok((Annotation { name: i + 1, value: Some(i + 3) }, i + 5))
        }
    } else {
        Ok((Annotation { name: i + 1, value: None }, i + 2))
    }
}

fn parse_annotations(t: &Vec<Token>, i: usize) -> (r: Step<Vec<Annotation>>)
    requires
        i <= t.len(),
    ensures
        seq_of(r) == p_annotations(tokens_view(t@), i as int),
        r matches Ok((_, j)) ==> i <= j <= t.len(),
{
    let ghost tv = tokens_view(t@);
    let mut done: Vec<Annotation> = Vec::new();
    let mut j = i;
    while kind_is(t, j, TokenKind::At)
        invariant
            i <= j <= t.len(),
            tv == tokens_view(t@),
            p_annotations(tv, i as int) == prefixed(done@, p_annotations(tv, j as int)),
        decreases t.len() - j,
    {
        let (a, k) = match parse_annotation(t, j) {
            Ok(x) => x,
            Err(e) => return Err(e),
        };
        proof {
            lemma_prefixed_cons(done@, a, p_annotations(tv, k as int));
        }
        done.push(a);
        j = k;
    }
    proof {
        lemma_prefixed_empty(done@, j as int);
    }
    Ok((done, j))
}

fn parse_field(t: &Vec<Token>, i: usize) -> (r: Step<FieldSyntax>)
    requires
        i <= t.len(),
    ensures
        plain(r) == p_field(tokens_view(t@), i as int),
        r matches Ok((_, j)) ==> i < j <= t.len(),
{
    if !kind_is(t, i, TokenKind::Identifier) {
        Err(SyntaxError { expected: Rule::Field, at: i })
    } else if !kind_is(t, i + 1, TokenKind::Colon) {
        Err(SyntaxError { expected: Rule::Colon, at: i + 1 })
    } else {
        match parse_type_expr(t, i + 2) {
            Ok((ty, j)) => if kind_is(t, j, TokenKind::Question) {
                Ok((FieldSyntax { name: i, ty, optional: true }, j + 1))
            } else {
                Ok((FieldSyntax { name: i, ty, optional: false }, j))
            },
            Err(e) => Err(e),
        }
    }
}

fn parse_fields(t: &Vec<Token>, i: usize) -> (r: Step<Vec<FieldSyntax>>)
    requires
        i <= t.len(),
    ensures
        seq_of(r) == p_fields(tokens_view(t@), i as int),
        r matches Ok((_, j)) ==> i <= j <= t.len(),
{
    let ghost tv = tokens_view(t@);
    let mut done: Vec<FieldSyntax> = Vec::new();
    let mut j = i;
    while !kind_is(t, j, TokenKind::CloseBrace)
        invariant
            i <= j <= t.len(),
            tv == tokens_view(t@),
            p_fields(tv, i as int) == prefixed(done@, p_fields(tv, j as int)),
        decreases t.len() - j,
    {
        let (f, k) = match parse_field(t, j) {
            Ok(x) => x,
            Err(e) => return Err(e),
        };
        proof {
            lemma_prefixed_cons(done@, f, p_fields(tv, k as int));
        }
        done.push(f);
        j = k;
    }
    proof {
        lemma_prefixed_empty(done@, j as int);
    }
    Ok((done, j))
}

pub open spec fn parameter_step(r: Step<ParameterSyntax>) -> Parsed<ParameterSyntaxV> {
    step_view(r, |p: ParameterSyntax| parameter_syntax_view(p))
}

pub open spec fn parameters_step(r: Step<Vec<ParameterSyntax>>) -> Parsed<Seq<ParameterSyntaxV>> {
    step_view(r, |v: Vec<ParameterSyntax>| parameters_syntax_view(v@))
}

fn parse_parameter(t: &Vec<Token>, i: usize) -> (r: Step<ParameterSyntax>)
    requires
        i <= t.len(),
    ensures
        parameter_step(r) == p_parameter(tokens_view(t@), i as int),
        r matches Ok((_, j)) ==> i < j <= t.len(),
{
    let (annotations, j) = match parse_annotations(t, i) {
        Ok(x) => x,
        Err(e) => return Err(e),
    };
    if !kind_is(t, j, TokenKind::Identifier) {
        Err(SyntaxError { expected: Rule::Identifier, at: j })
    } else if !kind_is(t, j + 1, TokenKind::Colon) {
        Err(SyntaxError { expected: Rule::Colon, at: j + 1 })
    } else {
        match parse_type_expr(t, j + 2) {
            Ok((ty, k)) => Ok((ParameterSyntax { annotations, name: j, ty }, k)),
            Err(e) => Err(e),
        }
    }
}

fn parse_more_parameters(t: &Vec<Token>, i: usize, first: ParameterSyntax) -> (r: Step<Vec<ParameterSyntax>>)
    requires
        i <= t.len(),
    ensures
        parameters_step(r) == cons(parameter_syntax_view(first), p_more_parameters(tokens_view(t@), i as int)),
        r matches Ok((_, j)) ==> i < j <= t.len(),
{
    let ghost tv = tokens_view(t@);
    let mut done: Vec<ParameterSyntax> = Vec::new();
    proof {
        lemma_prefixed_cons(Seq::<ParameterSyntaxV>::empty(), parameter_syntax_view(first), p_more_parameters(tv, i as int));
        assert(Seq::<ParameterSyntaxV>::empty().push(parameter_syntax_view(first)) == parameters_syntax_view(seq![first]));
    }
    done.push(first);
    let mut j = i;
    while kind_is(t, j, TokenKind::Comma)
        invariant
            i <= j <= t.len(),
            tv == tokens_view(t@),
            cons(parameter_syntax_view(first), p_more_parameters(tv, i as int))
                == prefixed(parameters_syntax_view(done@), p_more_parameters(tv, j as int)),
        decreases t.len() - j,
    {
        let (p, k) = match parse_parameter(t, j + 1) {
            Ok(x) => x,
            Err(e) => return Err(e),
        };
        proof {
            lemma_prefixed_cons(parameters_syntax_view(done@), parameter_syntax_view(p), p_more_parameters(tv, k as int));
            assert(parameters_syntax_view(done@).push(parameter_syntax_view(p)) == parameters_syntax_view(done@.push(p)));
        }
        done.push(p);
        j = k;
    }
    if !kind_is(t, j, TokenKind::CloseParen) {
        return Err(SyntaxError { expected: Rule::CloseParen, at: j });
    }
    proof {
        lemma_prefixed_empty(parameters_syntax_view(done@), j + 1);
    }
    Ok((done, j + 1))
}

fn parse_parameters(t: &Vec<Token>, i: usize) -> (r: Step<Vec<ParameterSyntax>>)
    requires
        i < t.len(),
    ensures
        parameters_step(r) == p_parameters(tokens_view(t@), i as int),
        r matches Ok((_, j)) ==> i < j <= t.len(),
{
    if kind_is(t, i + 1, TokenKind::CloseParen) {
        assert(parameters_syntax_view(Seq::<ParameterSyntax>::empty()) == Seq::<ParameterSyntaxV>::empty());
        Ok((Vec::new(), i + 2))
    } else {
        match parse_parameter(t, i + 1) {
            Ok((p, j)) => parse_more_parameters(t, j, p),
            Err(e) => Err(e),
        }
    }
}

fn parse_response(t: &Vec<Token>, i: usize) -> (r: Step<ResponseSyntax>)
    requires
        i <= t.len(),
    ensures
        plain(r) == p_response(tokens_view(t@), i as int),
        r matches Ok((_, j)) ==> i < j <= t.len(),
{
    let (_annotations, j) = match parse_annotations(t, i) {
        Ok(x) => x,
        Err(e) => return Err(e),
    };
    if !kind_is(t, j, TokenKind::Number) {
        Err(SyntaxError { expected: Rule::HttpCode, at: j })
    } else if !kind_is(t, j + 1, TokenKind::Colon) {
        Err(SyntaxError { expected: Rule::Colon, at: j + 1 })
    } else {
        match parse_type_expr(t, j + 2) {
            Ok((ty, k)) => Ok((ResponseSyntax { code: j, ty }, k)),
            Err(e) => Err(e),
        }
    }
}

fn parse_responses(t: &Vec<Token>, i: usize) -> (r: Step<Vec<ResponseSyntax>>)
    requires
        i <= t.len(),
    ensures
        seq_of(r) == p_responses(tokens_view(t@), i as int),
        r matches Ok((_, j)) ==> i <= j <= t.len(),
{
    let ghost tv = tokens_view(t@);
    let mut done: Vec<ResponseSyntax> = Vec::new();
    let mut j = i;
    while !kind_is(t, j, TokenKind::CloseBrace)
        invariant
            i <= j <= t.len(),
            tv == tokens_view(t@),
            p_responses(tv, i as int) == prefixed(done@, p_responses(tv, j as int)),
        decreases t.len() - j,
    {
        let (x, k) = match parse_response(t, j) {
            Ok(x) => x,
            Err(e) => return Err(e),
        };
        proof {
            lemma_prefixed_cons(done@, x, p_responses(tv, k as int));
        }
        done.push(x);
        j = k;
    }
    proof {
        lemma_prefixed_empty(done@, j as int);
    }
    Ok((done, j))
}

pub open spec fn endpoint_step(r: Step<EndpointSyntax>) -> Parsed<EndpointSyntaxV> {
    step_view(r, |e: EndpointSyntax| endpoint_syntax_view(e))
}

pub open spec fn endpoints_step(r: Step<Vec<EndpointSyntax>>) -> Parsed<Seq<EndpointSyntaxV>> {
    step_view(r, |v: Vec<EndpointSyntax>| endpoints_syntax_view(v@))
}

fn parse_endpoint(t: &Vec<Token>, i: usize) -> (r: Step<EndpointSyntax>)
    requires
        i <= t.len(),
    ensures
        endpoint_step(r) == p_endpoint(tokens_view(t@), i as int),
        r matches Ok((_, j)) ==> i < j <= t.len(),
{
    let (_annotations, j) = match parse_annotations(t, i) {
        Ok(x) => x,
        Err(e) => return Err(e),
    };
    if !kind_is(t, j, TokenKind::Identifier) {
        return Err(SyntaxError { expected: Rule::Method, at: j });
    }
    let method = match method_of(&t[j].text) {
        Some(m) => m,
        None => return Err(SyntaxError { expected: Rule::Method, at: j }),
    };
    if !kind_is(t, j + 1, TokenKind::Identifier) {
        return Err(SyntaxError { expected: Rule::Identifier, at: j + 1 });
    }
    if !kind_is(t, j + 2, TokenKind::OpenParen) {
        return Err(SyntaxError { expected: Rule::OpenParen, at: j + 2 });
    }
    let (parameters, k) = match parse_parameters(t, j + 2) {
        Ok(x) => x,
        Err(e) => return Err(e),
    };
    if !kind_is(t, k, TokenKind::OpenBrace) {
        return Err(SyntaxError { expected: Rule::OpenBrace, at: k });
    }
    let (responses, m) = match parse_responses(t, k + 1) {
        Ok(x) => x,
        Err(e) => return Err(e),
    };
    if !kind_is(t, m, TokenKind::CloseBrace) {
        return Err(SyntaxError { expected: Rule::CloseBrace, at: m });
    }
    Ok((EndpointSyntax { method, operation_id: j + 1, parameters, responses }, m + 1))
}

fn parse_endpoints(t: &Vec<Token>, i: usize) -> (r: Step<Vec<EndpointSyntax>>)
    requires
        i <= t.len(),
    ensures
        endpoints_step(r) == p_endpoints(tokens_view(t@), i as int),
        r matches Ok((_, j)) ==> i <= j <= t.len(),
{
    let ghost tv = tokens_view(t@);
    let mut done: Vec<EndpointSyntax> = Vec::new();
    let mut j = i;
    while !kind_is(t, j, TokenKind::CloseBrace)
        invariant
            i <= j <= t.len(),
            tv == tokens_view(t@),
            p_endpoints(tv, i as int) == prefixed(endpoints_syntax_view(done@), p_endpoints(tv, j as int)),
        decreases t.len() - j,
    {
        let (x, k) = match parse_endpoint(t, j) {
            Ok(x) => x,
            Err(e) => return Err(e),
        };
        proof {
            lemma_prefixed_cons(endpoints_syntax_view(done@), endpoint_syntax_view(x), p_endpoints(tv, k as int));
            assert(endpoints_syntax_view(done@).push(endpoint_syntax_view(x)) == endpoints_syntax_view(done@.push(x)));
        }
        done.push(x);
        j = k;
    }
    proof {
        lemma_prefixed_empty(endpoints_syntax_view(done@), j as int);
    }
    Ok((done, j))
}

pub open spec fn path_step(r: Step<PathSyntax>) -> Parsed<PathSyntaxV> {
    step_view(r, |p: PathSyntax| path_syntax_view(p))
}

pub open spec fn paths_step(r: Step<Vec<PathSyntax>>) -> Parsed<Seq<PathSyntaxV>> {
    step_view(r, |v: Vec<PathSyntax>| paths_syntax_view(v@))
}

fn parse_path(t: &Vec<Token>, i: usize) -> (r: Step<PathSyntax>)
    requires
        i < t.len(),
    ensures
        path_step(r) == p_path(tokens_view(t@), i as int),
        r matches Ok((_, j)) ==> i < j <= t.len(),
{
    if !kind_is(t, i + 1, TokenKind::String) {
        Err(SyntaxError { expected: Rule::String, at: i + 1 })
    } else if !kind_is(t, i + 2, TokenKind::OpenBrace) {
        Err(SyntaxError { expected: Rule::OpenBrace, at: i + 2 })
    } else {
        match parse_endpoints(t, i + 3) {
            Ok((endpoints, j)) => if !kind_is(t, j, TokenKind::CloseBrace) {
                Err(SyntaxError { expected: Rule::CloseBrace, at: j })
            } else {
                Ok((PathSyntax { url: i + 1, endpoints }, j + 1))
            },
            Err(e) => Err(e),
        }
    }
}

fn parse_api_body(t: &Vec<Token>, i: usize) -> (r: Step<Vec<PathSyntax>>)
    requires
        i <= t.len(),
    ensures
        paths_step(r) == p_api_body(tokens_view(t@), i as int),
        r matches Ok((_, j)) ==> i <= j <= t.len(),
{
    let ghost tv = tokens_view(t@);
    let mut done: Vec<PathSyntax> = Vec::new();
    let mut j = i;
    while !kind_is(t, j, TokenKind::CloseBrace)
        invariant
            i <= j <= t.len(),
            tv == tokens_view(t@),
            p_api_body(tv, i as int) == prefixed(paths_syntax_view(done@), p_api_body(tv, j as int)),
        decreases t.len() - j,
    {
        if word_is(t, j, "server") {
            if !kind_is(t, j + 1, TokenKind::String) {
                return Err(SyntaxError { expected: Rule::String, at: j + 1 });
            }
            j = j + 2;
        } else if word_is(t, j, "path") {
            let (x, k) = match parse_path(t, j) {
                Ok(x) => x,
                Err(e) => return Err(e),
            };
            proof {
                lemma_prefixed_cons(paths_syntax_view(done@), path_syntax_view(x), p_api_body(tv, k as int));
                assert(paths_syntax_view(done@).push(path_syntax_view(x)) == paths_syntax_view(done@.push(x)));
            }
            done.push(x);
            j = k;
        } else {
            return Err(SyntaxError { expected: Rule::ApiPath, at: j });
        }
    }
    proof {
        lemma_prefixed_empty(paths_syntax_view(done@), j as int);
    }
    Ok((done, j))
}

pub open spec fn item_step(r: Step<Item>) -> Parsed<ItemV> {
    step_view(r, |x: Item| item_view(x))
}

fn parse_api(t: &Vec<Token>, i: usize) -> (r: Step<Item>)
    requires
        i <= t.len(),
    ensures
        item_step(r) == p_api(tokens_view(t@), i as int),
        r matches Ok((_, j)) ==> i < j <= t.len(),
{
    let (_annotations, j) = match parse_annotations(t, i) {
        Ok(x) => x,
        Err(e) => return Err(e),
    };
    if !word_is(t, j, "api") {
        return Err(SyntaxError { expected: Rule::Api, at: j });
    }
    if !kind_is(t, j + 1, TokenKind::String) {
        return Err(SyntaxError { expected: Rule::String, at: j + 1 });
    }
    if !kind_is(t, j + 2, TokenKind::String) {
        return Err(SyntaxError { expected: Rule::String, at: j + 2 });
    }
    if !kind_is(t, j + 3, TokenKind::OpenBrace) {
        return Err(SyntaxError { expected: Rule::OpenBrace, at: j + 3 });
    }
    let (paths, k) = match parse_api_body(t, j + 4) {
        Ok(x) => x,
        Err(e) => return Err(e),
    };
    if !kind_is(t, k, TokenKind::CloseBrace) {
        return Err(SyntaxError { expected: Rule::CloseBrace, at: k });
    }
    Ok((Item::Api { name: j + 1, version: j + 2, paths }, k + 1))
}

fn parse_type_item(t: &Vec<Token>, i: usize) -> (r: Step<Item>)
    requires
        i < t.len(),
    ensures
        item_step(r) == p_type_item(tokens_view(t@), i as int),
        r matches Ok((_, j)) ==> i < j <= t.len(),
{
    if !kind_is(t, i + 1, TokenKind::Identifier) {
        Err(SyntaxError { expected: Rule::Identifier, at: i + 1 })
    } else if !kind_is(t, i + 2, TokenKind::Colon) {
        Err(SyntaxError { expected: Rule::Colon, at: i + 2 })
    } else {
        match parse_type_expr(t, i + 3) {
            Ok((ty, j)) => Ok((Item::Type { name: i + 1, ty }, j)),
            Err(e) => Err(e),
        }
    }
}

fn parse_schema_item(t: &Vec<Token>, i: usize) -> (r: Step<Item>)
    requires
        i < t.len(),
    ensures
        item_step(r) == p_schema_item(tokens_view(t@), i as int),
        r matches Ok((_, j)) ==> i < j <= t.len(),
{
    if !kind_is(t, i + 1, TokenKind::Identifier) {
        Err(SyntaxError { expected: Rule::Identifier, at: i + 1 })
    } else if kind_is(t, i + 2, TokenKind::OpenBrace) {
        match parse_fields(t, i + 3) {
            Ok((fields, j)) => if !kind_is(t, j, TokenKind::CloseBrace) {
                Err(SyntaxError { expected: Rule::CloseBrace, at: j })
            } else {
                Ok((Item::Schema { name: i + 1, body: SchemaBody::Fields(fields) }, j + 1))
            },
            Err(e) => Err(e),
        }
    } else if kind_is(t, i + 2, TokenKind::Colon) {
        match parse_type_expr(t, i + 3) {
            Ok((ty, j)) => Ok((Item::Schema { name: i + 1, body: SchemaBody::Alias(ty) }, j)),
            Err(e) => Err(e),
        }
    } else {
        Err(SyntaxError { expected: Rule::OpenBrace, at: i + 2 })
    }
}

fn parse_item(t: &Vec<Token>, i: usize) -> (r: Step<Item>)
    requires
        i < t.len(),
    ensures
        item_step(r) == p_item(tokens_view(t@), i as int),
        r matches Ok((_, j)) ==> i < j <= t.len(),
{
    if word_is(t, i, "type") {
        parse_type_item(t, i)
    } else if word_is(t, i, "schema") {
        parse_schema_item(t, i)
    } else if word_is(t, i, "api") || kind_is(t, i, TokenKind::At) {
        parse_api(t, i)
    } else {
        Err(SyntaxError { expected: Rule::EOI, at: i })
    }
}

/// The items of a token sequence, or the first place where it departs from the grammar.
pub fn parse_items(t: &Vec<Token>) -> (r: Result<Vec<Item>, SyntaxError>)
    ensures
        match p_script(tokens_view(t@)) {
            Ok(items) => r is Ok && items_view(r->Ok_0@) == items,
            Err(e) => r == Err::<Vec<Item>, SyntaxError>(e),
        },
{
    let ghost tv = tokens_view(t@);
    let mut done: Vec<Item> = Vec::new();
    let mut j: usize = 0;
    while j < t.len()
        invariant
            j <= t.len(),
            tv == tokens_view(t@),
            p_items(tv, 0) == prefixed(items_view(done@), p_items(tv, j as int)),
        decreases t.len() - j,
    {
        let (x, k) = match parse_item(t, j) {
            Ok(x) => x,
            Err(e) => return Err(e),
        };
        proof {
            lemma_prefixed_cons(items_view(done@), item_view(x), p_items(tv, k as int));
            assert(items_view(done@).push(item_view(x)) == items_view(done@.push(x)));
        }
        done.push(x);
        j = k;
    }
    proof {
        lemma_prefixed_empty(items_view(done@), j as int);
    }
    Ok(done)
}

} // verus!
