//! The places that errors point to lie within the source text.
use vstd::prelude::*;

use crate::laws::{law_tokens_in_text, token_in_text};
use crate::lexer::{is_digit, is_ident_start, is_space, lemma_scan, lex, lex_from, punct_kind, scan, CharClass, TokenV};
use crate::parser::{
    elab_endpoint, elab_endpoints, elab_item, elab_items, elab_parameter, elab_parameters, elab_paths,
    elab_responses, parse_spec, read_annotations, resolve, resolve_fields, token_text, decimal, ErrorV,
};
use crate::syntax::{
    lemma_endpoint_advances, lemma_field_advances, lemma_item_advances,
    lemma_parameter_advances, lemma_path_advances, lemma_response_advances, lemma_type_expr_advances, p_annotations,
    p_api_body, p_endpoint, p_endpoints, p_field, p_fields, p_item, p_items, p_more_parameters, p_parameter,
    p_parameters, p_path, p_response, p_responses, p_script, p_type_expr, kind_at,
    word_at, EndpointSyntaxV, FieldSyntax, ItemV, ParameterSyntaxV, PathSyntaxV, ResponseSyntax, SchemaBodyV,
    TypeExpr,
};
use crate::ast::{Constraint, DocumentV, EndpointV, FieldV, HttpMethod, ParameterLocation, ParameterV, PathV, RefOrV, SchemaV};
use crate::lexer::TokenKind;
use crate::maps::map_insert;

verus! {

/// The place of an error, where it has one, lies within a text of `n`
/// characters: it starts no later than it ends, and ends no later than the text.
pub open spec fn error_in_text(e: ErrorV, n: int) -> bool {
    match e {
        ErrorV::Syntax { span: Some((start, end)), .. } => start <= end <= n,
        ErrorV::Parse { span: Some((start, end)), .. } => start <= end <= n,
        _ => true,
    }
}

/// The tokens lie in order within a text of `n` characters.
#[verifier::opaque]
pub open spec fn tokens_placed(t: Seq<TokenV>, n: int) -> bool {
    &&& forall|k: int| 0 <= k < t.len() ==> 0 <= (#[trigger] t[k]).start < t[k].end <= n
    &&& forall|k: int, m: int| 0 <= k < m < t.len() ==> (#[trigger] t[k]).end <= (#[trigger] t[m]).start
}

// ---------------------------------------------------------------------------
// Errors of the tokenizer.
// ---------------------------------------------------------------------------

proof fn lemma_lex_error_in_text(s: Seq<char>, i: int)
    requires
        0 <= i,
    ensures
        lex_from(s, i) matches Err(e) ==> 0 <= e.start <= e.end <= s.len(),
    decreases s.len() - i,
{
    if i < s.len() {
        let c = s[i];
        if is_space(c) || punct_kind(c) is Some {
            lemma_lex_error_in_text(s, i + 1);
        } else if is_ident_start(c) {
            lemma_scan(s, i + 1, CharClass::IdentChar);
            lemma_lex_error_in_text(s, scan(s, i + 1, CharClass::IdentChar));
        } else if is_digit(c) {
            lemma_scan(s, i + 1, CharClass::Digit);
            lemma_lex_error_in_text(s, scan(s, i + 1, CharClass::Digit));
        } else if c == '"' {
            lemma_scan(s, i + 1, CharClass::NotQuote);
            let j = scan(s, i + 1, CharClass::NotQuote);
            if j < s.len() {
                lemma_lex_error_in_text(s, j + 1);
            }
        } else if c == '#' {
            lemma_scan(s, i + 1, CharClass::FormatChar);
            let j = scan(s, i + 1, CharClass::FormatChar);
            if j > i + 1 {
                lemma_lex_error_in_text(s, j);
            }
        }
    }
}

// ---------------------------------------------------------------------------
// The places that the syntax tree records.
// ---------------------------------------------------------------------------

/// The places of a written type and of the types inside it lie within the text.
pub open spec fn expr_within(ty: TypeExpr, n: int) -> bool
    decreases ty,
{
    match ty {
        TypeExpr::Named { .. } => true,
        TypeExpr::List { element, start, end } => start <= end <= n && expr_within(*element, n),
        TypeExpr::Primitive { start, end, .. } => start <= end <= n,
    }
}

pub open spec fn fields_within(fs: Seq<FieldSyntax>, n: int) -> bool {
    forall|k: int| 0 <= k < fs.len() ==> expr_within(#[trigger] fs[k].ty, n)
}

pub open spec fn parameters_within(ps: Seq<ParameterSyntaxV>, n: int) -> bool {
    forall|k: int| 0 <= k < ps.len() ==> expr_within(#[trigger] ps[k].ty, n)
}

pub open spec fn responses_within(rs: Seq<ResponseSyntax>, n: int) -> bool {
    forall|k: int| 0 <= k < rs.len() ==> expr_within(#[trigger] rs[k].ty, n)
}

pub open spec fn endpoint_within(e: EndpointSyntaxV, n: int) -> bool {
    parameters_within(e.parameters, n) && responses_within(e.responses, n)
}

pub open spec fn endpoints_within(es: Seq<EndpointSyntaxV>, n: int) -> bool {
    forall|k: int| 0 <= k < es.len() ==> endpoint_within(#[trigger] es[k], n)
}

pub open spec fn paths_within(ps: Seq<PathSyntaxV>, n: int) -> bool {
    forall|k: int| 0 <= k < ps.len() ==> endpoints_within(#[trigger] ps[k].endpoints, n)
}

pub open spec fn item_within(item: ItemV, n: int) -> bool {
    match item {
        ItemV::Type { ty, .. } => expr_within(ty, n),
        ItemV::Schema { body, .. } => match body {
            SchemaBodyV::Fields(fs) => fields_within(fs, n),
            SchemaBodyV::Alias(ty) => expr_within(ty, n),
        },
        ItemV::Api { paths, .. } => paths_within(paths, n),
    }
}

pub open spec fn items_within(items: Seq<ItemV>, n: int) -> bool {
    forall|k: int| 0 <= k < items.len() ==> item_within(#[trigger] items[k], n)
}

proof fn lemma_type_expr_within(t: Seq<TokenV>, i: int, n: int)
    requires
        tokens_placed(t, n),
        n <= usize::MAX,
    ensures
        p_type_expr(t, i) matches Ok((ty, _)) ==> expr_within(ty, n),
    decreases t.len() - i,
{
    reveal(tokens_placed);
    if 0 <= i < t.len() {
        assert(0 <= t[i].start < t[i].end <= n);
        if t[i].kind == TokenKind::OpenBracket {
            lemma_type_expr_within(t, i + 1, n);
            lemma_type_expr_advances(t, i + 1);
            if let Ok((element, j)) = p_type_expr(t, i + 1) {
                if kind_at(t, j, TokenKind::CloseBracket) {
                    assert(t[i].end <= t[j].start);
                    assert(0 <= t[j].start < t[j].end <= n);
                }
            }
        } else if kind_at(t, i + 1, TokenKind::Format) {
            assert(t[i].end <= t[i + 1].start);
            assert(0 <= t[i + 1].start < t[i + 1].end <= n);
        }
    }
}

/// A sequence that starts with `x` and goes on with `xs`.
proof fn lemma_cons_index<A>(x: A, xs: Seq<A>, k: int)
    requires
        0 <= k < xs.len() + 1,
    ensures
        (seq![x] + xs)[k] == if k == 0 { x } else { xs[k - 1] },
{
}

proof fn lemma_fields_within(t: Seq<TokenV>, i: int, n: int)
    requires
        tokens_placed(t, n),
        n <= usize::MAX,
    ensures
        p_fields(t, i) matches Ok((fs, _)) ==> fields_within(fs, n),
    decreases t.len() - i,
{
    if !(i < 0 || kind_at(t, i, TokenKind::CloseBrace)) {
        lemma_type_expr_within(t, i + 2, n);
        lemma_field_advances(t, i);
        if let Ok((f, j)) = p_field(t, i) {
            lemma_fields_within(t, j, n);
            if let Ok((rest, m)) = p_fields(t, j) {
                let all = seq![f] + rest;
                assert forall|k: int| 0 <= k < all.len() implies expr_within(#[trigger] all[k].ty, n) by {
                    lemma_cons_index(f, rest, k);
                }
            }
        }
    }
}

proof fn lemma_parameter_within(t: Seq<TokenV>, i: int, n: int)
    requires
        tokens_placed(t, n),
        n <= usize::MAX,
    ensures
        p_parameter(t, i) matches Ok((p, _)) ==> expr_within(p.ty, n),
{
    if let Ok((a, j)) = p_annotations(t, i) {
        lemma_type_expr_within(t, j + 2, n);
    }
}

proof fn lemma_more_parameters_within(t: Seq<TokenV>, i: int, n: int)
    requires
        tokens_placed(t, n),
        n <= usize::MAX,
    ensures
        p_more_parameters(t, i) matches Ok((ps, _)) ==> parameters_within(ps, n),
    decreases t.len() - i,
{
    if 0 <= i <= t.len() && kind_at(t, i, TokenKind::Comma) {
        lemma_parameter_within(t, i + 1, n);
        lemma_parameter_advances(t, i + 1);
        if let Ok((p, j)) = p_parameter(t, i + 1) {
            lemma_more_parameters_within(t, j, n);
            if let Ok((rest, m)) = p_more_parameters(t, j) {
                let all = seq![p] + rest;
                assert forall|k: int| 0 <= k < all.len() implies expr_within(#[trigger] all[k].ty, n) by {
                    lemma_cons_index(p, rest, k);
                }
            }
        }
    }
}

proof fn lemma_parameters_within(t: Seq<TokenV>, i: int, n: int)
    requires
        tokens_placed(t, n),
        n <= usize::MAX,
    ensures
        p_parameters(t, i) matches Ok((ps, _)) ==> parameters_within(ps, n),
{
    if !kind_at(t, i + 1, TokenKind::CloseParen) {
        lemma_parameter_within(t, i + 1, n);
        if let Ok((p, j)) = p_parameter(t, i + 1) {
            lemma_more_parameters_within(t, j, n);
            if let Ok((rest, m)) = p_more_parameters(t, j) {
                let all = seq![p] + rest;
                assert forall|k: int| 0 <= k < all.len() implies expr_within(#[trigger] all[k].ty, n) by {
                    lemma_cons_index(p, rest, k);
                }
            }
        }
    }
}

proof fn lemma_responses_within(t: Seq<TokenV>, i: int, n: int)
    requires
        tokens_placed(t, n),
        n <= usize::MAX,
    ensures
        p_responses(t, i) matches Ok((rs, _)) ==> responses_within(rs, n),
    decreases t.len() - i,
{
    if !(i < 0 || i > t.len() || kind_at(t, i, TokenKind::CloseBrace)) {
        if let Ok((a, j)) = p_annotations(t, i) {
            lemma_type_expr_within(t, j + 2, n);
        }
        lemma_response_advances(t, i);
        if let Ok((r, j)) = p_response(t, i) {
            lemma_responses_within(t, j, n);
            if let Ok((rest, m)) = p_responses(t, j) {
                let all = seq![r] + rest;
                assert forall|k: int| 0 <= k < all.len() implies expr_within(#[trigger] all[k].ty, n) by {
                    lemma_cons_index(r, rest, k);
                }
            }
        }
    }
}

proof fn lemma_endpoint_within(t: Seq<TokenV>, i: int, n: int)
    requires
        tokens_placed(t, n),
        n <= usize::MAX,
    ensures
        p_endpoint(t, i) matches Ok((e, _)) ==> endpoint_within(e, n),
{
    if let Ok((a, j)) = p_annotations(t, i) {
        lemma_parameters_within(t, j + 2, n);
        if let Ok((ps, k)) = p_parameters(t, j + 2) {
            lemma_responses_within(t, k + 1, n);
        }
    }
}

proof fn lemma_endpoints_within(t: Seq<TokenV>, i: int, n: int)
    requires
        tokens_placed(t, n),
        n <= usize::MAX,
    ensures
        p_endpoints(t, i) matches Ok((es, _)) ==> endpoints_within(es, n),
    decreases t.len() - i,
{
    if !(i < 0 || i > t.len() || kind_at(t, i, TokenKind::CloseBrace)) {
        lemma_endpoint_within(t, i, n);
        lemma_endpoint_advances(t, i);
        if let Ok((e, j)) = p_endpoint(t, i) {
            lemma_endpoints_within(t, j, n);
            if let Ok((rest, m)) = p_endpoints(t, j) {
                let all = seq![e] + rest;
                assert forall|k: int| 0 <= k < all.len() implies endpoint_within(#[trigger] all[k], n) by {
                    lemma_cons_index(e, rest, k);
                }
            }
        }
    }
}

proof fn lemma_path_within(t: Seq<TokenV>, i: int, n: int)
    requires
        tokens_placed(t, n),
        n <= usize::MAX,
    ensures
        p_path(t, i) matches Ok((p, _)) ==> endpoints_within(p.endpoints, n),
{
    lemma_endpoints_within(t, i + 3, n);
}

proof fn lemma_api_body_within(t: Seq<TokenV>, i: int, n: int)
    requires
        tokens_placed(t, n),
        n <= usize::MAX,
    ensures
        p_api_body(t, i) matches Ok((ps, _)) ==> paths_within(ps, n),
    decreases t.len() - i,
{
    if !(i < 0 || i > t.len() || kind_at(t, i, TokenKind::CloseBrace)) {
        if word_at(t, i, "server"@) {
            if kind_at(t, i + 1, TokenKind::String) {
                lemma_api_body_within(t, i + 2, n);
            }
        } else if word_at(t, i, "path"@) {
            lemma_path_within(t, i, n);
            lemma_path_advances(t, i);
            if let Ok((p, j)) = p_path(t, i) {
                lemma_api_body_within(t, j, n);
                if let Ok((rest, m)) = p_api_body(t, j) {
                    let all = seq![p] + rest;
                    assert(p_api_body(t, i) == Ok::<(Seq<PathSyntaxV>, int), crate::syntax::SyntaxError>((all, m)));
                    assert forall|k: int| 0 <= k < all.len() implies endpoints_within(#[trigger] all[k].endpoints, n) by {
                        lemma_cons_index(p, rest, k);
                    }
                }
            }
        }
    }
}

proof fn lemma_item_within(t: Seq<TokenV>, i: int, n: int)
    requires
        tokens_placed(t, n),
        n <= usize::MAX,
    ensures
        p_item(t, i) matches Ok((item, _)) ==> item_within(item, n),
{
    if word_at(t, i, "type"@) {
        lemma_type_expr_within(t, i + 3, n);
    } else if word_at(t, i, "schema"@) {
        lemma_fields_within(t, i + 3, n);
        lemma_type_expr_within(t, i + 3, n);
    } else if let Ok((a, j)) = p_annotations(t, i) {
        lemma_api_body_within(t, j + 4, n);
    }
}

proof fn lemma_items_within(t: Seq<TokenV>, i: int, n: int)
    requires
        tokens_placed(t, n),
        n <= usize::MAX,
    ensures
        p_items(t, i) matches Ok((items, _)) ==> items_within(items, n),
    decreases t.len() - i,
{
    if 0 <= i < t.len() {
        lemma_item_within(t, i, n);
        lemma_item_advances(t, i);
        if let Ok((item, j)) = p_item(t, i) {
            lemma_items_within(t, j, n);
            if let Ok((rest, m)) = p_items(t, j) {
                let all = seq![item] + rest;
                assert forall|k: int| 0 <= k < all.len() implies item_within(#[trigger] all[k], n) by {
                    lemma_cons_index(item, rest, k);
                }
            }
        }
    }
}

// ---------------------------------------------------------------------------
// Errors of the elaboration.
// ---------------------------------------------------------------------------

proof fn lemma_resolve_in_text(t: Seq<TokenV>, schemas: Seq<SchemaV>, ty: TypeExpr, n: int)
    requires
        expr_within(ty, n),
    ensures
        resolve(t, schemas, ty) matches Err(e) ==> error_in_text(e, n),
{
    if let TypeExpr::List { element, .. } = ty {
        assert(expr_within(*element, n));
    }
}

proof fn lemma_annotations_in_text(t: Seq<TokenV>, p: ParameterSyntaxV, k: int, location: Option<ParameterLocation>, constraints: Seq<Constraint>, n: int)
    ensures
        read_annotations(t, p.annotations, k, location, constraints) matches Err(e) ==> error_in_text(e, n),
    decreases p.annotations.len() - k,
{
    if 0 <= k < p.annotations.len() {
        let name = token_text(t, p.annotations[k].name as int);
        if name == "Path"@ {
            lemma_annotations_in_text(t, p, k + 1, Some(ParameterLocation::Path), constraints, n);
        } else if name == "Query"@ {
            lemma_annotations_in_text(t, p, k + 1, Some(ParameterLocation::Query), constraints, n);
        } else if name == "Max"@ {
            if let Some(v) = p.annotations[k].value {
                if let Some(m) = decimal(token_text(t, v as int), usize::MAX as nat) {
                    lemma_annotations_in_text(t, p, k + 1, location, constraints.push(Constraint::Maximum(m as usize)), n);
                }
            }
        } else {
            lemma_annotations_in_text(t, p, k + 1, location, constraints, n);
        }
    }
}

proof fn lemma_fields_in_text(t: Seq<TokenV>, schemas: Seq<SchemaV>, fs: Seq<FieldSyntax>, k: int, n: int)
    requires
        fields_within(fs, n),
    ensures
        forall|done: Seq<FieldV>| #[trigger] resolve_fields(t, schemas, fs, k, done) matches Err(e) ==> error_in_text(e, n),
    decreases fs.len() - k,
{
    if 0 <= k < fs.len() {
        lemma_resolve_in_text(t, schemas, fs[k].ty, n);
        lemma_fields_in_text(t, schemas, fs, k + 1, n);
        assert forall|done: Seq<FieldV>|
            (#[trigger] resolve_fields(t, schemas, fs, k, done) matches Err(e) ==> error_in_text(e, n)) by {
            if let Ok(def) = resolve(t, schemas, fs[k].ty) {
                let next = done.push(FieldV { name: token_text(t, fs[k].name as int), definition: def, required: !fs[k].optional });
                assert(resolve_fields(t, schemas, fs, k, done) == resolve_fields(t, schemas, fs, k + 1, next));
            }
        }
    }
}

proof fn lemma_parameter_in_text(t: Seq<TokenV>, schemas: Seq<SchemaV>, p: ParameterSyntaxV, n: int)
    requires
        expr_within(p.ty, n),
    ensures
        elab_parameter(t, schemas, p) matches Err(e) ==> error_in_text(e, n),
{
    lemma_annotations_in_text(t, p, 0, None, Seq::empty(), n);
    lemma_resolve_in_text(t, schemas, p.ty, n);
}

proof fn lemma_parameters_in_text(t: Seq<TokenV>, schemas: Seq<SchemaV>, ps: Seq<ParameterSyntaxV>, k: int, n: int)
    requires
        parameters_within(ps, n),
    ensures
        forall|done: Seq<ParameterV>| #[trigger] elab_parameters(t, schemas, ps, k, done) matches Err(e) ==> error_in_text(e, n),
    decreases ps.len() - k,
{
    if 0 <= k < ps.len() {
        lemma_parameter_in_text(t, schemas, ps[k], n);
        lemma_parameters_in_text(t, schemas, ps, k + 1, n);
        assert forall|done: Seq<ParameterV>|
            (#[trigger] elab_parameters(t, schemas, ps, k, done) matches Err(e) ==> error_in_text(e, n)) by {
            if let Ok(p) = elab_parameter(t, schemas, ps[k]) {
                assert(elab_parameters(t, schemas, ps, k, done) == elab_parameters(t, schemas, ps, k + 1, done.push(p)));
            }
        }
    }
}

proof fn lemma_responses_in_text(t: Seq<TokenV>, schemas: Seq<SchemaV>, rs: Seq<ResponseSyntax>, k: int, n: int)
    requires
        responses_within(rs, n),
    ensures
        forall|done: Seq<(u16, Seq<(Seq<char>, RefOrV)>)>| #[trigger] elab_responses(t, schemas, rs, k, done) matches Err(e)
            ==> error_in_text(e, n),
    decreases rs.len() - k,
{
    if 0 <= k < rs.len() {
        lemma_resolve_in_text(t, schemas, rs[k].ty, n);
        lemma_responses_in_text(t, schemas, rs, k + 1, n);
        assert forall|done: Seq<(u16, Seq<(Seq<char>, RefOrV)>)>|
            (#[trigger] elab_responses(t, schemas, rs, k, done) matches Err(e) ==> error_in_text(e, n)) by {
            if let Some(code) = decimal(token_text(t, rs[k].code as int), u16::MAX as nat) {
                if let Ok(def) = resolve(t, schemas, rs[k].ty) {
                    let next = map_insert(done, code as u16, seq![("application/json"@, def)]);
                    assert(elab_responses(t, schemas, rs, k, done) == elab_responses(t, schemas, rs, k + 1, next));
                }
            }
        }
    }
}

proof fn lemma_endpoints_in_text(t: Seq<TokenV>, schemas: Seq<SchemaV>, es: Seq<EndpointSyntaxV>, k: int, n: int)
    requires
        endpoints_within(es, n),
    ensures
        forall|done: Seq<(HttpMethod, EndpointV)>| #[trigger] elab_endpoints(t, schemas, es, k, done) matches Err(e)
            ==> error_in_text(e, n),
    decreases es.len() - k,
{
    if 0 <= k < es.len() {
        assert(endpoint_within(es[k], n));
        lemma_parameters_in_text(t, schemas, es[k].parameters, 0, n);
        lemma_responses_in_text(t, schemas, es[k].responses, 0, n);
        assert(elab_endpoint(t, schemas, es[k]) matches Err(e) ==> error_in_text(e, n));
        lemma_endpoints_in_text(t, schemas, es, k + 1, n);
        assert forall|done: Seq<(HttpMethod, EndpointV)>|
            (#[trigger] elab_endpoints(t, schemas, es, k, done) matches Err(e) ==> error_in_text(e, n)) by {
            if let Ok(ev) = elab_endpoint(t, schemas, es[k]) {
                let next = map_insert(done, es[k].method, ev);
                assert(elab_endpoints(t, schemas, es, k, done) == elab_endpoints(t, schemas, es, k + 1, next));
            }
        }
    }
}

proof fn lemma_paths_in_text(t: Seq<TokenV>, schemas: Seq<SchemaV>, ps: Seq<PathSyntaxV>, k: int, n: int)
    requires
        paths_within(ps, n),
    ensures
        forall|done: Seq<(Seq<char>, PathV)>| #[trigger] elab_paths(t, schemas, ps, k, done) matches Err(e) ==> error_in_text(e, n),
    decreases ps.len() - k,
{
    if 0 <= k < ps.len() {
        assert(endpoints_within(ps[k].endpoints, n));
        lemma_endpoints_in_text(t, schemas, ps[k].endpoints, 0, n);
        assert(elab_endpoints(t, schemas, ps[k].endpoints, 0, Seq::empty()) matches Err(e) ==> error_in_text(e, n));
        lemma_paths_in_text(t, schemas, ps, k + 1, n);
        assert forall|done: Seq<(Seq<char>, PathV)>|
            (#[trigger] elab_paths(t, schemas, ps, k, done) matches Err(e) ==> error_in_text(e, n)) by {
            if let Ok(endpoints) = elab_endpoints(t, schemas, ps[k].endpoints, 0, Seq::empty()) {
                let next = map_insert(done, token_text(t, ps[k].url as int), PathV { endpoints });
                assert(elab_paths(t, schemas, ps, k, done) == elab_paths(t, schemas, ps, k + 1, next));
            }
        }
    }
}

proof fn lemma_item_in_text(t: Seq<TokenV>, schemas: Seq<SchemaV>, item: ItemV, n: int)
    requires
        item_within(item, n),
    ensures
        elab_item(t, schemas, item) matches Err(e) ==> error_in_text(e, n),
{
    match item {
        ItemV::Type { ty, .. } => lemma_resolve_in_text(t, schemas, ty, n),
        ItemV::Schema { body, .. } => {
            if let SchemaBodyV::Fields(fs) = body {
                lemma_fields_in_text(t, schemas, fs, 0, n);
                assert(resolve_fields(t, schemas, fs, 0, Seq::empty()) matches Err(e) ==> error_in_text(e, n));
            }
        },
        ItemV::Api { paths, .. } => {
            lemma_paths_in_text(t, schemas, paths, 0, n);
            assert(elab_paths(t, schemas, paths, 0, Seq::empty()) matches Err(e) ==> error_in_text(e, n));
        },
    }
}

proof fn lemma_items_in_text(t: Seq<TokenV>, items: Seq<ItemV>, k: int, n: int)
    requires
        items_within(items, n),
    ensures
        forall|doc: DocumentV| #[trigger] elab_items(t, items, k, doc) matches Err(e) ==> error_in_text(e, n),
    decreases items.len() - k,
{
    if 0 <= k < items.len() {
        assert(item_within(items[k], n));
        assert forall|schemas: Seq<SchemaV>| (#[trigger] elab_item(t, schemas, items[k]) matches Err(e) ==> error_in_text(e, n)) by {
            lemma_item_in_text(t, schemas, items[k], n);
        }
        lemma_items_in_text(t, items, k + 1, n);
        assert forall|doc: DocumentV| (#[trigger] elab_items(t, items, k, doc) matches Err(e) ==> error_in_text(e, n)) by {
            match elab_item(t, doc.schemas, items[k]) {
                Ok(crate::parser::Elaborated::Schema(sv)) => {
                    let next = DocumentV { schemas: doc.schemas.push(sv), ..doc };
                    assert(elab_items(t, items, k, doc) == elab_items(t, items, k + 1, next));
                },
                Ok(crate::parser::Elaborated::Api(a)) => {
                    let next = DocumentV { apis: doc.apis.push(a), ..doc };
                    assert(elab_items(t, items, k, doc) == elab_items(t, items, k + 1, next));
                },
                Err(_) => {},
            }
        }
    }
}

/// Every error that reading a source text reports with a place points into
/// the text: the place starts no later than it ends, and ends no later than
/// the text, counted in characters.
pub proof fn law_error_places_in_text(s: Seq<char>)
    requires
        s.len() <= usize::MAX,
    ensures
        parse_spec(s) matches Err(e) ==> error_in_text(e, s.len() as int),
{
    let n = s.len() as int;
    lemma_lex_error_in_text(s, 0);
    if let Ok(t) = lex(s) {
        law_tokens_in_text(s);
        assert(tokens_placed(t, n)) by {
            reveal(tokens_placed);
            reveal(token_in_text);
        }
        match p_script(t) {
            Err(e) => {
                if e.at < t.len() {
                    assert(token_in_text(s, t[e.at as int]));
                    reveal(token_in_text);
                }
            },
            Ok(items) => {
                lemma_items_within(t, 0, n);
                lemma_items_in_text(t, items, 0, n);
                assert(crate::parser::elaborate(t, items) matches Err(e) ==> error_in_text(e, n));
            },
        }
    }
}

} // verus!
