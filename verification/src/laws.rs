//! Properties of the library as a whole, stated over the meaning functions
//! that the contracts of the parser and the generator use.
use vstd::prelude::*;

use crate::ast::{DefinitionV, DocumentV, EndpointV, FieldV, ParameterV, PathV, RefOrV, SchemaV, ApiV};
use crate::lexer::{byte_position, is_ident_start, is_digit, is_space, lemma_scan, lex, lex_from, punct_kind, scan, CharClass, TokenKind, TokenV};
use crate::maps::{keys_distinct, law_map_insert, law_map_insert_values, map_get, map_insert};
use crate::generator::{
    format_name, openapi_version, gen_api, gen_content, gen_definition, gen_document, gen_endpoint, gen_parameter, gen_path,
    gen_primitive, gen_properties, gen_reference_or, gen_schemas, required_names, schema_reference, with_constraints,
    with_maximum,
};
use crate::openapi::{ApiParameterV, OpenApiV, OperationV, SchemaObjectV, SchemaOrReferenceV};
use crate::ast::{FormatV, HttpMethod, Kind, PrimitiveV};
use crate::maps::{key_position, lemma_key_position};
use crate::ast::Constraint;
use crate::parser::{
    elab_endpoint, elab_endpoints, elab_item, elab_items, elab_parameter, elab_parameters, elab_paths,
    elab_responses, lemma_schema_position, parse_spec, resolve, resolve_fields, schema_position, Elaborated,
};
use crate::syntax::{EndpointSyntaxV, FieldSyntax, ItemV, ParameterSyntaxV, PathSyntaxV, ResponseSyntax, TypeExpr};

verus! {

// ---------------------------------------------------------------------------
// A document refers only to schemas defined before the reference.
// ---------------------------------------------------------------------------

/// Some schema in `schemas` is called `name`.
pub open spec fn defined_in(schemas: Seq<SchemaV>, name: Seq<char>) -> bool {
    exists|j: int| 0 <= j < schemas.len() && schemas[j].identifier == name
}

/// `s` is the first schema of its name in `schemas`.
pub open spec fn first_of_name(schemas: Seq<SchemaV>, s: SchemaV) -> bool {
    let p = schema_position(schemas, s.identifier);
    0 <= p && schemas[p] == s
}

/// Every schema that `r` refers to, directly or inside it, is the first
/// schema of its name in `schemas`.
pub open spec fn refers_within(r: RefOrV, schemas: Seq<SchemaV>) -> bool
    decreases r,
{
    match r {
        RefOrV::Reference(s) => first_of_name(schemas, *s),
        RefOrV::Actual(d) => definition_refers_within(d, schemas),
    }
}

pub open spec fn definition_refers_within(d: DefinitionV, schemas: Seq<SchemaV>) -> bool
    decreases d,
{
    match d {
        DefinitionV::Primitive(_) => true,
        DefinitionV::Array(s) => first_of_name(schemas, *s),
        DefinitionV::Object(fields) => fields_refer_within(fields, schemas),
    }
}

pub open spec fn fields_refer_within(fields: Seq<FieldV>, schemas: Seq<SchemaV>) -> bool
    decreases fields,
{
    if fields.len() == 0 {
        true
    } else {
        fields_refer_within(fields.drop_last(), schemas) && refers_within(fields.last().definition, schemas)
    }
}

pub open spec fn endpoint_refers_within(e: EndpointV, schemas: Seq<SchemaV>) -> bool {
    &&& forall|i: int| 0 <= i < e.parameters.len() ==> refers_within(#[trigger] e.parameters[i].kind, schemas)
    &&& forall|i: int, j: int|
        0 <= i < e.responses.len() && 0 <= j < e.responses[i].1.len() ==> refers_within(
            #[trigger] e.responses[i].1[j].1,
            schemas,
        )
}

pub open spec fn path_refers_within(p: PathV, schemas: Seq<SchemaV>) -> bool {
    forall|i: int| 0 <= i < p.endpoints.len() ==> endpoint_refers_within(#[trigger] p.endpoints[i].1, schemas)
}

pub open spec fn api_refers_within(a: ApiV, schemas: Seq<SchemaV>) -> bool {
    forall|i: int| 0 <= i < a.paths.len() ==> path_refers_within(#[trigger] a.paths[i].1, schemas)
}

/// Each schema refers only to schemas before it, and each API only to schemas
/// of the document.
pub open spec fn well_scoped(doc: DocumentV) -> bool {
    &&& forall|i: int| 0 <= i < doc.schemas.len() ==> refers_within(#[trigger] doc.schemas[i].definition, doc.schemas.take(i))
    &&& forall|i: int| 0 <= i < doc.apis.len() ==> api_refers_within(#[trigger] doc.apis[i], doc.schemas)
}

proof fn lemma_first_of_name_push(schemas: Seq<SchemaV>, s: SchemaV, extra: SchemaV)
    requires
        first_of_name(schemas, s),
    ensures
        first_of_name(schemas.push(extra), s),
{
    lemma_schema_position(schemas, s.identifier);
    assert(schemas.push(extra).drop_last() == schemas);
}

/// The first schema of its name is a schema of that name.
proof fn lemma_first_of_name_defined(schemas: Seq<SchemaV>, s: SchemaV)
    requires
        first_of_name(schemas, s),
    ensures
        defined_in(schemas, s.identifier),
{
    lemma_schema_position(schemas, s.identifier);
    let p = schema_position(schemas, s.identifier);
    assert(schemas[p].identifier == s.identifier);
}

proof fn lemma_refers_within_push(r: RefOrV, schemas: Seq<SchemaV>, extra: SchemaV)
    requires
        refers_within(r, schemas),
    ensures
        refers_within(r, schemas.push(extra)),
    decreases r,
{
    match r {
        RefOrV::Reference(s) => lemma_first_of_name_push(schemas, *s, extra),
        RefOrV::Actual(d) => lemma_definition_refers_within_push(d, schemas, extra),
    }
}

proof fn lemma_definition_refers_within_push(d: DefinitionV, schemas: Seq<SchemaV>, extra: SchemaV)
    requires
        definition_refers_within(d, schemas),
    ensures
        definition_refers_within(d, schemas.push(extra)),
    decreases d,
{
    match d {
        DefinitionV::Primitive(_) => {},
        DefinitionV::Array(s) => lemma_first_of_name_push(schemas, *s, extra),
        DefinitionV::Object(fields) => lemma_fields_refer_within_push(fields, schemas, extra),
    }
}

proof fn lemma_fields_refer_within_push(fields: Seq<FieldV>, schemas: Seq<SchemaV>, extra: SchemaV)
    requires
        fields_refer_within(fields, schemas),
    ensures
        fields_refer_within(fields, schemas.push(extra)),
    decreases fields,
{
    if fields.len() > 0 {
        lemma_fields_refer_within_push(fields.drop_last(), schemas, extra);
        lemma_refers_within_push(fields.last().definition, schemas, extra);
    }
}

proof fn lemma_api_refers_within_push(a: ApiV, schemas: Seq<SchemaV>, extra: SchemaV)
    requires
        api_refers_within(a, schemas),
    ensures
        api_refers_within(a, schemas.push(extra)),
{
    assert forall|i: int| 0 <= i < a.paths.len() implies path_refers_within(#[trigger] a.paths[i].1, schemas.push(extra)) by {
        let p = a.paths[i].1;
        assert forall|k: int| 0 <= k < p.endpoints.len() implies endpoint_refers_within(#[trigger] p.endpoints[k].1, schemas.push(extra)) by {
            let e = p.endpoints[k].1;
            assert(endpoint_refers_within(e, schemas));
            assert forall|m: int| 0 <= m < e.parameters.len() implies refers_within(#[trigger] e.parameters[m].kind, schemas.push(extra)) by {
                lemma_refers_within_push(e.parameters[m].kind, schemas, extra);
            }
            assert forall|m: int, n: int| 0 <= m < e.responses.len() && 0 <= n < e.responses[m].1.len()
                implies refers_within(#[trigger] e.responses[m].1[n].1, schemas.push(extra)) by {
                lemma_refers_within_push(e.responses[m].1[n].1, schemas, extra);
            }
        }
    }
}

proof fn lemma_resolve_within(t: Seq<TokenV>, schemas: Seq<SchemaV>, ty: TypeExpr)
    ensures
        resolve(t, schemas, ty) matches Ok(r) ==> refers_within(r, schemas),
{
    match ty {
        TypeExpr::Named { token } => {
            let name = crate::parser::token_text(t, token as int);
            lemma_schema_position(schemas, name);
            if resolve(t, schemas, ty) is Ok {
                let j = crate::parser::schema_position(schemas, name);
                assert(schemas[j].identifier == name);
            }
        },
        TypeExpr::List { element, .. } => {
            if let TypeExpr::Named { token } = *element {
                let name = crate::parser::token_text(t, token as int);
                lemma_schema_position(schemas, name);
                if resolve(t, schemas, ty) is Ok {
                    let j = crate::parser::schema_position(schemas, name);
                    assert(schemas[j].identifier == name);
                }
            }
        },
        TypeExpr::Primitive { .. } => {},
    }
}

proof fn lemma_resolve_fields_within(
    t: Seq<TokenV>,
    schemas: Seq<SchemaV>,
    fs: Seq<FieldSyntax>,
    k: int,
    done: Seq<FieldV>,
)
    requires
        fields_refer_within(done, schemas),
    ensures
        resolve_fields(t, schemas, fs, k, done) matches Ok(fields) ==> fields_refer_within(fields, schemas),
    decreases fs.len() - k,
{
    if 0 <= k < fs.len() {
        lemma_resolve_within(t, schemas, fs[k].ty);
        if let Ok(def) = resolve(t, schemas, fs[k].ty) {
            let f = FieldV { name: crate::parser::token_text(t, fs[k].name as int), definition: def, required: !fs[k].optional };
            assert(done.push(f).drop_last() == done);
            lemma_resolve_fields_within(t, schemas, fs, k + 1, done.push(f));
        }
    }
}

proof fn lemma_parameters_within(
    t: Seq<TokenV>,
    schemas: Seq<SchemaV>,
    ps: Seq<ParameterSyntaxV>,
    k: int,
    done: Seq<ParameterV>,
)
    requires
        forall|i: int| 0 <= i < done.len() ==> refers_within(#[trigger] done[i].kind, schemas),
    ensures
        elab_parameters(t, schemas, ps, k, done) matches Ok(params)
            ==> forall|i: int| 0 <= i < params.len() ==> refers_within(#[trigger] params[i].kind, schemas),
    decreases ps.len() - k,
{
    if 0 <= k < ps.len() {
        lemma_resolve_within(t, schemas, ps[k].ty);
        if let Ok(p) = elab_parameter(t, schemas, ps[k]) {
            assert forall|i: int| 0 <= i < done.push(p).len() implies refers_within(#[trigger] done.push(p)[i].kind, schemas) by {
                if i < done.len() {
                    assert(done.push(p)[i] == done[i]);
                }
            }
            lemma_parameters_within(t, schemas, ps, k + 1, done.push(p));
        }
    }
}

pub open spec fn content_within(c: Seq<(Seq<char>, RefOrV)>, schemas: Seq<SchemaV>) -> bool {
    forall|j: int| 0 <= j < c.len() ==> refers_within(#[trigger] c[j].1, schemas)
}

proof fn lemma_responses_within(
    t: Seq<TokenV>,
    schemas: Seq<SchemaV>,
    rs: Seq<ResponseSyntax>,
    k: int,
    done: Seq<(u16, Seq<(Seq<char>, RefOrV)>)>,
)
    requires
        forall|i: int| 0 <= i < done.len() ==> content_within(#[trigger] done[i].1, schemas),
    ensures
        elab_responses(t, schemas, rs, k, done) matches Ok(responses)
            ==> forall|i: int| 0 <= i < responses.len() ==> content_within(#[trigger] responses[i].1, schemas),
    decreases rs.len() - k,
{
    if 0 <= k < rs.len() {
        lemma_resolve_within(t, schemas, rs[k].ty);
        if let Some(code) = crate::parser::decimal(crate::parser::token_text(t, rs[k].code as int), u16::MAX as nat) {
            if let Ok(def) = resolve(t, schemas, rs[k].ty) {
                let content = seq![("application/json"@, def)];
                assert(content_within(content, schemas));
                law_map_insert_values(done, code as u16, content, |c: Seq<(Seq<char>, RefOrV)>| content_within(c, schemas));
                lemma_responses_within(t, schemas, rs, k + 1, map_insert(done, code as u16, content));
            }
        }
    }
}

proof fn lemma_endpoint_within(t: Seq<TokenV>, schemas: Seq<SchemaV>, e: EndpointSyntaxV)
    ensures
        elab_endpoint(t, schemas, e) matches Ok(ev) ==> endpoint_refers_within(ev, schemas),
{
    lemma_parameters_within(t, schemas, e.parameters, 0, Seq::empty());
    lemma_responses_within(t, schemas, e.responses, 0, Seq::empty());
    if let Ok(ev) = elab_endpoint(t, schemas, e) {
        assert forall|i: int, j: int| 0 <= i < ev.responses.len() && 0 <= j < ev.responses[i].1.len()
            implies refers_within(#[trigger] ev.responses[i].1[j].1, schemas) by {
            assert(content_within(ev.responses[i].1, schemas));
        }
    }
}

proof fn lemma_endpoints_within(
    t: Seq<TokenV>,
    schemas: Seq<SchemaV>,
    es: Seq<EndpointSyntaxV>,
    k: int,
    done: Seq<(crate::ast::HttpMethod, EndpointV)>,
)
    requires
        forall|i: int| 0 <= i < done.len() ==> endpoint_refers_within(#[trigger] done[i].1, schemas),
    ensures
        elab_endpoints(t, schemas, es, k, done) matches Ok(endpoints)
            ==> forall|i: int| 0 <= i < endpoints.len() ==> endpoint_refers_within(#[trigger] endpoints[i].1, schemas),
    decreases es.len() - k,
{
    if 0 <= k < es.len() {
        lemma_endpoint_within(t, schemas, es[k]);
        if let Ok(ev) = elab_endpoint(t, schemas, es[k]) {
            law_map_insert_values(done, es[k].method, ev, |e: EndpointV| endpoint_refers_within(e, schemas));
            lemma_endpoints_within(t, schemas, es, k + 1, map_insert(done, es[k].method, ev));
        }
    }
}

proof fn lemma_paths_within(
    t: Seq<TokenV>,
    schemas: Seq<SchemaV>,
    ps: Seq<PathSyntaxV>,
    k: int,
    done: Seq<(Seq<char>, PathV)>,
)
    requires
        forall|i: int| 0 <= i < done.len() ==> path_refers_within(#[trigger] done[i].1, schemas),
    ensures
        elab_paths(t, schemas, ps, k, done) matches Ok(paths)
            ==> forall|i: int| 0 <= i < paths.len() ==> path_refers_within(#[trigger] paths[i].1, schemas),
    decreases ps.len() - k,
{
    if 0 <= k < ps.len() {
        lemma_endpoints_within(t, schemas, ps[k].endpoints, 0, Seq::empty());
        if let Ok(endpoints) = elab_endpoints(t, schemas, ps[k].endpoints, 0, Seq::empty()) {
            let pv = PathV { endpoints };
            let url = crate::parser::token_text(t, ps[k].url as int);
            law_map_insert_values(done, url, pv, |p: PathV| path_refers_within(p, schemas));
            lemma_paths_within(t, schemas, ps, k + 1, map_insert(done, url, pv));
        }
    }
}

proof fn lemma_item_within(t: Seq<TokenV>, schemas: Seq<SchemaV>, item: ItemV)
    ensures
        match elab_item(t, schemas, item) {
            Ok(Elaborated::Schema(s)) => refers_within(s.definition, schemas),
            Ok(Elaborated::Api(a)) => api_refers_within(a, schemas),
            Err(_) => true,
        },
{
    match item {
        ItemV::Type { name, ty } => lemma_resolve_within(t, schemas, ty),
        ItemV::Schema { name, body } => {
            if let crate::syntax::SchemaBodyV::Fields(fs) = body {
                lemma_resolve_fields_within(t, schemas, fs, 0, Seq::empty());
            }
        },
        ItemV::Api { name, version, paths } => lemma_paths_within(t, schemas, paths, 0, Seq::empty()),
    }
}

proof fn lemma_items_within(t: Seq<TokenV>, items: Seq<ItemV>, k: int, doc: DocumentV)
    requires
        well_scoped(doc),
    ensures
        elab_items(t, items, k, doc) matches Ok(result) ==> well_scoped(result),
    decreases items.len() - k,
{
    if 0 <= k < items.len() {
        lemma_item_within(t, doc.schemas, items[k]);
        match elab_item(t, doc.schemas, items[k]) {
            Ok(Elaborated::Schema(s)) => {
                let next = DocumentV { schemas: doc.schemas.push(s), ..doc };
                assert forall|i: int| 0 <= i < next.schemas.len()
                    implies refers_within(#[trigger] next.schemas[i].definition, next.schemas.take(i)) by {
                    assert(next.schemas.take(i) == doc.schemas.take(i) || i == doc.schemas.len());
                    if i < doc.schemas.len() {
                        assert(next.schemas[i] == doc.schemas[i]);
                        assert(next.schemas.take(i) == doc.schemas.take(i));
                    } else {
                        assert(next.schemas.take(i) == doc.schemas);
                    }
                }
                assert forall|i: int| 0 <= i < next.apis.len() implies api_refers_within(#[trigger] next.apis[i], next.schemas) by {
                    lemma_api_refers_within_push(doc.apis[i], doc.schemas, s);
                }
                lemma_items_within(t, items, k + 1, next);
            },
            Ok(Elaborated::Api(a)) => {
                let next = DocumentV { apis: doc.apis.push(a), ..doc };
                assert forall|i: int| 0 <= i < next.apis.len() implies api_refers_within(#[trigger] next.apis[i], next.schemas) by {
                    if i < doc.apis.len() {
                        assert(next.apis[i] == doc.apis[i]);
                    }
                }
                lemma_items_within(t, items, k + 1, next);
            },
            Err(_) => {},
        }
    }
}

/// A document read from any text refers only to schemas defined before the
/// reference, and every reference holds the first schema of its name: each
/// schema refers to the first of its name among the schemas before it, each
/// API to the first of its name among the schemas of the document.
pub proof fn law_references_resolve(s: Seq<char>)
    ensures
        parse_spec(s) matches Ok(doc) ==> well_scoped(doc),
{
    if let Ok(t) = crate::lexer::lex(s) {
        if let Ok(items) = crate::syntax::p_script(t) {
            let empty = DocumentV { schemas: Seq::empty(), apis: Seq::empty() };
            lemma_items_within(t, items, 0, empty);
        }
    }
}

// ---------------------------------------------------------------------------
// The generated documents.
// ---------------------------------------------------------------------------

/// There is one OpenAPI document per API, in the order of the APIs; every
/// one follows OpenAPI 3 (version `3.0.3`), carries the component schemas of
/// the whole document, and its paths are the API's URLs, in order.
pub proof fn law_one_document_per_api(doc: DocumentV)
    ensures
        gen_document(doc).len() == doc.apis.len(),
        forall|i: int| 0 <= i < doc.apis.len() ==> (#[trigger] gen_document(doc)[i]).openapi == openapi_version(),
        forall|i: int| 0 <= i < doc.apis.len() ==> (#[trigger] gen_document(doc)[i]).schemas == gen_schemas(doc.schemas),
        forall|i: int| 0 <= i < doc.apis.len() ==> (#[trigger] gen_document(doc)[i]).paths.len() == doc.apis[i].paths.len(),
        forall|i: int, j: int| 0 <= i < doc.apis.len() && 0 <= j < doc.apis[i].paths.len()
            ==> (#[trigger] gen_document(doc)[i].paths[j]).0 == doc.apis[i].paths[j].0,
{
}

/// The component schemas have distinct names; a name is among them exactly
/// when some schema has it; and the component of a name is generated from the
/// last schema of that name.
pub proof fn law_component_schemas(schemas: Seq<SchemaV>, name: Seq<char>)
    ensures
        keys_distinct(gen_schemas(schemas)),
        map_get(gen_schemas(schemas), name) is Some <==> defined_in(schemas, name),
        forall|i: int|
            0 <= i < schemas.len() && schemas[i].identifier == name && (forall|j: int| i < j < schemas.len() ==> schemas[j].identifier != name)
                ==> map_get(gen_schemas(schemas), name) == Some(gen_reference_or(#[trigger] schemas[i].definition)),
    decreases schemas.len(),
{
    if schemas.len() > 0 {
        let before = schemas.drop_last();
        let last = schemas.last();
        law_component_schemas(before, name);
        law_map_insert(gen_schemas(before), last.identifier, gen_reference_or(last.definition), name);
        if defined_in(before, name) {
            let j = choose|j: int| 0 <= j < before.len() && before[j].identifier == name;
            assert(schemas[j].identifier == name);
        }
        if defined_in(schemas, name) && last.identifier != name {
            let j = choose|j: int| 0 <= j < schemas.len() && schemas[j].identifier == name;
            assert(before[j].identifier == name);
        }
        assert forall|i: int|
            0 <= i < schemas.len() && schemas[i].identifier == name && (forall|j: int| i < j < schemas.len() ==> schemas[j].identifier != name)
            implies map_get(gen_schemas(schemas), name) == Some(gen_reference_or(#[trigger] schemas[i].definition)) by {
            if i < schemas.len() - 1 {
                assert(schemas[schemas.len() - 1].identifier != name);
                assert(before[i] == schemas[i]);
                assert forall|j: int| i < j < before.len() implies before[j].identifier != name by {
                    assert(before[j] == schemas[j]);
                }
            }
        }
    }
}

proof fn lemma_maximum_overrides(k: SchemaObjectV, a: usize, b: usize)
    ensures
        with_maximum(with_maximum(k, a), b) == with_maximum(k, b),
{
}

proof fn lemma_maximum_absorbs(kind: SchemaObjectV, cs: Seq<Constraint>, m: usize)
    ensures
        with_maximum(with_constraints(kind, cs), m) == with_maximum(kind, m),
    decreases cs.len(),
{
    if cs.len() > 0 {
        let before = cs.drop_last();
        lemma_maximum_absorbs(kind, before, m);
        if let Constraint::Maximum(x) = cs.last() {
            lemma_maximum_overrides(with_constraints(kind, before), x, m);
        }
    }
}

/// Of a primitive's constraints only maxima apply, and the last one wins;
/// without a maximum the schema is unchanged.
pub proof fn law_last_maximum_wins(kind: SchemaObjectV, cs: Seq<Constraint>, i: int)
    ensures
        (forall|j: int| 0 <= j < cs.len() ==> (#[trigger] cs[j]) is Minimum) ==> with_constraints(kind, cs) == kind,
        0 <= i < cs.len() && cs[i] is Maximum && (forall|j: int| i < j < cs.len() ==> (#[trigger] cs[j]) is Minimum)
            ==> with_constraints(kind, cs) == with_maximum(kind, cs[i]->Maximum_0),
    decreases cs.len(),
{
    if cs.len() > 0 {
        let before = cs.drop_last();
        law_last_maximum_wins(kind, before, i);
        if forall|j: int| 0 <= j < cs.len() ==> (#[trigger] cs[j]) is Minimum {
            assert forall|j: int| 0 <= j < before.len() implies (#[trigger] before[j]) is Minimum by {
                assert(before[j] == cs[j]);
            }
            assert(cs[cs.len() - 1] is Minimum);
        }
        if 0 <= i < cs.len() && cs[i] is Maximum && (forall|j: int| i < j < cs.len() ==> (#[trigger] cs[j]) is Minimum) {
            if i < cs.len() - 1 {
                assert(cs[cs.len() - 1] is Minimum);
                assert(before[i] == cs[i]);
                assert forall|j: int| i < j < before.len() implies (#[trigger] before[j]) is Minimum by {
                    assert(before[j] == cs[j]);
                }
            } else {
                lemma_maximum_absorbs(kind, before, cs[i]->Maximum_0);
            }
        }
    }
}

/// Constraints are applied in order: applying two lists one after the other
/// is applying the two lists joined.
pub proof fn law_constraints_concatenate(kind: SchemaObjectV, first: Seq<Constraint>, second: Seq<Constraint>)
    ensures
        with_constraints(kind, first + second) == with_constraints(with_constraints(kind, first), second),
    decreases second.len(),
{
    if second.len() == 0 {
        assert(first + second == first);
    } else {
        law_constraints_concatenate(kind, first, second.drop_last());
        assert((first + second).drop_last() == first + second.drop_last());
        assert((first + second).last() == second.last());
    }
}

/// The required names of an object are the names of its required fields.
pub proof fn law_required_names(fields: Seq<FieldV>, name: Seq<char>)
    ensures
        required_names(fields).contains(name) <==> exists|i: int| 0 <= i < fields.len() && fields[i].required && fields[i].name == name,
    decreases fields.len(),
{
    if fields.len() > 0 {
        let before = fields.drop_last();
        law_required_names(before, name);
        if exists|i: int| 0 <= i < before.len() && before[i].required && before[i].name == name {
            let i = choose|i: int| 0 <= i < before.len() && before[i].required && before[i].name == name;
            assert(fields[i] == before[i]);
        }
        if exists|i: int| 0 <= i < fields.len() && fields[i].required && fields[i].name == name {
            let i = choose|i: int| 0 <= i < fields.len() && fields[i].required && fields[i].name == name;
            if i < before.len() {
                assert(fields[i] == before[i]);
            }
        }
        let rb = required_names(before);
        if fields.last().required {
            let ra = rb.push(fields.last().name);
            assert(required_names(fields) == ra);
            if rb.contains(name) {
                let k = choose|k: int| 0 <= k < rb.len() && rb[k] == name;
                assert(ra[k] == name);
            }
            if fields.last().name == name {
                assert(ra[rb.len() as int] == name);
            }
            if ra.contains(name) {
                let k = choose|k: int| 0 <= k < ra.len() && ra[k] == name;
                if k < rb.len() {
                    assert(rb[k] == name);
                }
            }
        } else {
            assert(required_names(fields) == rb);
        }
    }
}

// ---------------------------------------------------------------------------
// References in the generated documents.
// ---------------------------------------------------------------------------

/// `r` is the reference of a schema among `components`.
pub open spec fn names_component(r: Seq<char>, components: Seq<(Seq<char>, SchemaOrReferenceV)>) -> bool {
    exists|name: Seq<char>| r == #[trigger] schema_reference(name) && map_get(components, name) is Some
}

/// Every reference inside the schema object names a schema among `components`.
pub open spec fn object_refs_resolve(o: SchemaObjectV, components: Seq<(Seq<char>, SchemaOrReferenceV)>) -> bool
    decreases o,
{
    match o {
        SchemaObjectV::Array { items } => names_component(items, components),
        SchemaObjectV::Object { properties, .. } => forall|i: int|
            0 <= i < properties.len() ==> object_refs_resolve(#[trigger] properties[i].1, components),
        _ => true,
    }
}

pub open spec fn schema_refs_resolve(s: SchemaOrReferenceV, components: Seq<(Seq<char>, SchemaOrReferenceV)>) -> bool {
    match s {
        SchemaOrReferenceV::Reference(r) => names_component(r, components),
        SchemaOrReferenceV::Item(o) => object_refs_resolve(o, components),
    }
}

pub open spec fn parameter_schema(p: ApiParameterV) -> SchemaOrReferenceV {
    match p {
        ApiParameterV::Query { schema, .. } => schema,
        ApiParameterV::Path { schema, .. } => schema,
    }
}

pub open spec fn operation_refs_resolve(op: OperationV, components: Seq<(Seq<char>, SchemaOrReferenceV)>) -> bool {
    &&& forall|i: int|
        0 <= i < op.parameters.len() ==> schema_refs_resolve(parameter_schema(#[trigger] op.parameters[i]), components)
    &&& forall|i: int, j: int|
        0 <= i < op.responses.len() && 0 <= j < op.responses[i].1.content.len() ==> schema_refs_resolve(
            #[trigger] op.responses[i].1.content[j].1,
            components,
        )
}

/// Every reference in the document, in a component schema or in an
/// operation, names one of the document's component schemas.
pub open spec fn document_refs_resolve(o: OpenApiV) -> bool {
    &&& forall|i: int| 0 <= i < o.schemas.len() ==> schema_refs_resolve(#[trigger] o.schemas[i].1, o.schemas)
    &&& forall|i: int|
        0 <= i < o.paths.len() ==> ((#[trigger] o.paths[i]).1.get matches Some(op) ==> operation_refs_resolve(op, o.schemas))
}

/// The components hold a schema for every name defined in `schemas`.
pub open spec fn holds_all(schemas: Seq<SchemaV>, components: Seq<(Seq<char>, SchemaOrReferenceV)>) -> bool {
    forall|name: Seq<char>| #[trigger] defined_in(schemas, name) ==> map_get(components, name) is Some
}

proof fn lemma_constraints_keep_plain(kind: SchemaObjectV, cs: Seq<Constraint>)
    requires
        !(kind is Array),
        !(kind is Object),
    ensures
        !(with_constraints(kind, cs) is Array),
        !(with_constraints(kind, cs) is Object),
    decreases cs.len(),
{
    if cs.len() > 0 {
        lemma_constraints_keep_plain(kind, cs.drop_last());
    }
}

proof fn lemma_primitive_plain(p: PrimitiveV)
    ensures
        !(gen_primitive(p) is Array),
        !(gen_primitive(p) is Object),
{
    let base = match p.kind {
        Kind::String => match p.format {
            Some(FormatV::String(sf)) => SchemaObjectV::String { format: Some(format_name(sf)), max_length: None },
            _ => SchemaObjectV::String { format: None, max_length: None },
        },
        Kind::Number => match p.format {
            Some(FormatV::Number(nf)) => SchemaObjectV::Number { format: Some(nf), maximum: None },
            _ => SchemaObjectV::Number { format: None, maximum: None },
        },
        Kind::Integer => match p.format {
            Some(FormatV::Integer(inf)) => SchemaObjectV::Integer { format: Some(inf), maximum: None },
            _ => SchemaObjectV::Integer { format: None, maximum: None },
        },
        Kind::Boolean => SchemaObjectV::Boolean,
    };
    assert(gen_primitive(p) == with_constraints(base, p.constraints));
    lemma_constraints_keep_plain(base, p.constraints);
}

proof fn lemma_definition_refs(d: DefinitionV, schemas: Seq<SchemaV>, components: Seq<(Seq<char>, SchemaOrReferenceV)>)
    requires
        definition_refers_within(d, schemas),
        holds_all(schemas, components),
    ensures
        object_refs_resolve(gen_definition(d), components),
    decreases d,
{
    match d {
        DefinitionV::Primitive(p) => {
            lemma_primitive_plain(p);
            assert(gen_definition(d) == gen_primitive(p));
            let o = gen_primitive(p);
            assert(!(o is Array));
            assert(!(o is Object));
            assert(object_refs_resolve(o, components));
        },
        DefinitionV::Array(s) => {
            lemma_first_of_name_defined(schemas, *s);
            assert(map_get(components, s.identifier) is Some);
            assert(schema_reference(s.identifier) == schema_reference(s.identifier));
        },
        DefinitionV::Object(fields) => {
            lemma_properties_refs(fields, schemas, components);
            let props = gen_properties(fields);
            assert(gen_definition(d) == SchemaObjectV::Object { properties: props, required: required_names(fields) });
            assert forall|i: int| 0 <= i < props.len() implies object_refs_resolve(#[trigger] props[i].1, components) by {}
        },
    }
}

proof fn lemma_properties_refs(fields: Seq<FieldV>, schemas: Seq<SchemaV>, components: Seq<(Seq<char>, SchemaOrReferenceV)>)
    requires
        fields_refer_within(fields, schemas),
        holds_all(schemas, components),
    ensures
        forall|i: int|
            0 <= i < gen_properties(fields).len() ==> object_refs_resolve(#[trigger] gen_properties(fields)[i].1, components),
    decreases fields,
{
    if fields.len() > 0 {
        let before = fields.drop_last();
        lemma_properties_refs(before, schemas, components);
        assert(refers_within(fields.last().definition, schemas));
        match fields.last().definition {
            RefOrV::Actual(d) => {
                assert(definition_refers_within(d, schemas));
                lemma_definition_refs(d, schemas, components);
                law_map_insert_values(
                    gen_properties(before),
                    fields.last().name,
                    gen_definition(d),
                    |o: SchemaObjectV| object_refs_resolve(o, components),
                );
            },
            RefOrV::Reference(_) => {},
        }
    }
}

proof fn lemma_reference_or_refs(r: RefOrV, schemas: Seq<SchemaV>, components: Seq<(Seq<char>, SchemaOrReferenceV)>)
    requires
        refers_within(r, schemas),
        holds_all(schemas, components),
    ensures
        schema_refs_resolve(gen_reference_or(r), components),
{
    match r {
        RefOrV::Reference(s) => {
            lemma_first_of_name_defined(schemas, *s);
            assert(map_get(components, s.identifier) is Some);
            assert(schema_reference(s.identifier) == schema_reference(s.identifier));
        },
        RefOrV::Actual(d) => lemma_definition_refs(d, schemas, components),
    }
}

proof fn lemma_component_refs(schemas: Seq<SchemaV>, k: int, components: Seq<(Seq<char>, SchemaOrReferenceV)>)
    requires
        0 <= k <= schemas.len(),
        forall|i: int| 0 <= i < schemas.len() ==> refers_within(#[trigger] schemas[i].definition, schemas.take(i)),
        holds_all(schemas, components),
    ensures
        forall|i: int|
            0 <= i < gen_schemas(schemas.take(k)).len() ==> schema_refs_resolve(
                #[trigger] gen_schemas(schemas.take(k))[i].1,
                components,
            ),
    decreases k,
{
    if k > 0 {
        lemma_component_refs(schemas, k - 1, components);
        let prefix = schemas.take(k - 1);
        assert(schemas.take(k).drop_last() == prefix);
        assert(schemas.take(k).last() == schemas[k - 1]);
        assert forall|name: Seq<char>| #[trigger] defined_in(prefix, name) implies map_get(components, name) is Some by {
            let j = choose|j: int| 0 <= j < prefix.len() && prefix[j].identifier == name;
            assert(schemas[j].identifier == name);
            assert(defined_in(schemas, name));
        }
        lemma_reference_or_refs(schemas[k - 1].definition, prefix, components);
        law_map_insert_values(
            gen_schemas(prefix),
            schemas[k - 1].identifier,
            gen_reference_or(schemas[k - 1].definition),
            |s: SchemaOrReferenceV| schema_refs_resolve(s, components),
        );
    }
}

proof fn lemma_operation_refs(e: EndpointV, schemas: Seq<SchemaV>, components: Seq<(Seq<char>, SchemaOrReferenceV)>)
    requires
        endpoint_refers_within(e, schemas),
        holds_all(schemas, components),
    ensures
        operation_refs_resolve(gen_endpoint(e), components),
{
    let op = gen_endpoint(e);
    assert forall|i: int| 0 <= i < op.parameters.len() implies schema_refs_resolve(
        parameter_schema(#[trigger] op.parameters[i]),
        components,
    ) by {
        assert(op.parameters[i] == gen_parameter(e.parameters[i]));
        lemma_reference_or_refs(e.parameters[i].kind, schemas, components);
    }
    assert forall|i: int, j: int| 0 <= i < op.responses.len() && 0 <= j < op.responses[i].1.content.len() implies schema_refs_resolve(
        #[trigger] op.responses[i].1.content[j].1,
        components,
    ) by {
        assert(op.responses[i].1.content == gen_content(e.responses[i].1));
        assert(op.responses[i].1.content[j].1 == gen_reference_or(e.responses[i].1[j].1));
        lemma_reference_or_refs(e.responses[i].1[j].1, schemas, components);
    }
}

proof fn lemma_path_refs(p: PathV, schemas: Seq<SchemaV>, components: Seq<(Seq<char>, SchemaOrReferenceV)>)
    requires
        path_refers_within(p, schemas),
        holds_all(schemas, components),
    ensures
        gen_path(p).get matches Some(op) ==> operation_refs_resolve(op, components),
{
    lemma_key_position(p.endpoints, HttpMethod::Get);
    let k = key_position(p.endpoints, HttpMethod::Get);
    if k >= 0 {
        assert(endpoint_refers_within(p.endpoints[k].1, schemas));
        lemma_operation_refs(p.endpoints[k].1, schemas, components);
    }
}

/// Every reference in a document generated from a source text, whether in a
/// component schema, a parameter or a response, names one of that document's
/// component schemas.
pub proof fn law_generated_references_resolve(s: Seq<char>)
    ensures
        parse_spec(s) matches Ok(doc) ==> forall|i: int|
            0 <= i < gen_document(doc).len() ==> document_refs_resolve(#[trigger] gen_document(doc)[i]),
{
    law_references_resolve(s);
    if let Ok(doc) = parse_spec(s) {
        let components = gen_schemas(doc.schemas);
        assert forall|name: Seq<char>| #[trigger] defined_in(doc.schemas, name) implies map_get(components, name) is Some by {
            law_component_schemas(doc.schemas, name);
        }
        lemma_component_refs(doc.schemas, doc.schemas.len() as int, components);
        assert(doc.schemas.take(doc.schemas.len() as int) == doc.schemas);
        assert forall|i: int| 0 <= i < gen_document(doc).len() implies document_refs_resolve(#[trigger] gen_document(doc)[i]) by {
            let a = doc.apis[i];
            let o = gen_document(doc)[i];
            assert(o == gen_api(doc, a));
            assert forall|j: int| 0 <= j < o.paths.len() implies ((#[trigger] o.paths[j]).1.get matches Some(op)
                ==> operation_refs_resolve(op, o.schemas)) by {
                assert(o.paths[j].1 == gen_path(a.paths[j].1));
                lemma_path_refs(a.paths[j].1, doc.schemas, components);
            }
        }
    }
}

// ---------------------------------------------------------------------------
// Tokens.
// ---------------------------------------------------------------------------

/// A token lies within the text, and its text is the text at its place: a
/// string without its quotes, a format without its `#`.
#[verifier::opaque]
pub open spec fn token_in_text(s: Seq<char>, t: TokenV) -> bool {
    &&& 0 <= t.start < t.end <= s.len()
    &&& t.text == match t.kind {
        TokenKind::String => s.subrange(t.start + 1, t.end - 1),
        TokenKind::Format => s.subrange(t.start + 1, t.end),
        _ => s.subrange(t.start, t.end),
    }
}

/// Every token lies within the text, and each ends before any later one begins.
pub open spec fn tokens_in_order(s: Seq<char>, ts: Seq<TokenV>) -> bool {
    &&& forall|k: int| 0 <= k < ts.len() ==> token_in_text(s, #[trigger] ts[k])
    &&& forall|k: int, m: int| 0 <= k < m < ts.len() ==> (#[trigger] ts[k]).end <= (#[trigger] ts[m]).start
}

proof fn lemma_prepend_in_order(s: Seq<char>, t: TokenV, rest: Seq<TokenV>)
    requires
        token_in_text(s, t),
        tokens_in_order(s, rest),
        rest.len() > 0 ==> t.end <= rest[0].start,
    ensures
        tokens_in_order(s, seq![t] + rest),
        (seq![t] + rest)[0] == t,
{
    let all = seq![t] + rest;
    assert forall|k: int| 0 <= k < all.len() implies token_in_text(s, #[trigger] all[k]) by {
        if k > 0 {
            assert(all[k] == rest[k - 1]);
        }
    }
    assert forall|k: int, m: int| 0 <= k < m < all.len() implies (#[trigger] all[k]).end <= (#[trigger] all[m]).start by {
        assert(all[m] == rest[m - 1]);
        if k > 0 {
            assert(all[k] == rest[k - 1]);
        } else {
            assert(token_in_text(s, rest[m - 1]));
            assert(rest[0].start <= rest[m - 1].start) by {
                if m - 1 > 0 {
                    assert(rest[0].end <= rest[m - 1].start);
                    assert(token_in_text(s, rest[0]));
                    reveal(token_in_text);
                }
            }
        }
    }
}

proof fn lemma_lex_from_in_order(s: Seq<char>, i: int)
    requires
        0 <= i <= s.len(),
    ensures
        lex_from(s, i) matches Ok(ts) ==> tokens_in_order(s, ts) && (ts.len() > 0 ==> i <= ts[0].start),
    decreases s.len() - i,
{
    if i < s.len() {
        let c = s[i];
        if is_space(c) {
            lemma_lex_from_in_order(s, i + 1);
        } else if punct_kind(c) is Some {
            lemma_lex_from_in_order(s, i + 1);
            if let Ok(rest) = lex_from(s, i + 1) {
                let t = TokenV {
                    kind: punct_kind(c)->0,
                    text: seq![c],
                    start: i,
                    end: i + 1,
                    text_bytes: (byte_position(s, i), byte_position(s, i + 1)),
                };
                assert(s.subrange(i, i + 1) =~= seq![c]);
                assert(token_in_text(s, t)) by {
                    reveal(token_in_text);
                }
                lemma_prepend_in_order(s, t, rest);
            }
        } else if is_ident_start(c) {
            lemma_scan(s, i + 1, CharClass::IdentChar);
            let j = scan(s, i + 1, CharClass::IdentChar);
            lemma_lex_from_in_order(s, j);
            if let Ok(rest) = lex_from(s, j) {
                let t = TokenV {
                    kind: TokenKind::Identifier,
                    text: s.subrange(i, j),
                    start: i,
                    end: j,
                    text_bytes: (byte_position(s, i), byte_position(s, j)),
                };
                assert(token_in_text(s, t)) by {
                    reveal(token_in_text);
                }
                lemma_prepend_in_order(s, t, rest);
            }
        } else if is_digit(c) {
            lemma_scan(s, i + 1, CharClass::Digit);
            let j = scan(s, i + 1, CharClass::Digit);
            lemma_lex_from_in_order(s, j);
            if let Ok(rest) = lex_from(s, j) {
                let t = TokenV {
                    kind: TokenKind::Number,
                    text: s.subrange(i, j),
                    start: i,
                    end: j,
                    text_bytes: (byte_position(s, i), byte_position(s, j)),
                };
                assert(token_in_text(s, t)) by {
                    reveal(token_in_text);
                }
                lemma_prepend_in_order(s, t, rest);
            }
        } else if c == '"' {
            lemma_scan(s, i + 1, CharClass::NotQuote);
            let j = scan(s, i + 1, CharClass::NotQuote);
            if j < s.len() {
                lemma_lex_from_in_order(s, j + 1);
                if let Ok(rest) = lex_from(s, j + 1) {
                    let t = TokenV {
                        kind: TokenKind::String,
                        text: s.subrange(i + 1, j),
                        start: i,
                        end: j + 1,
                        text_bytes: (byte_position(s, i + 1), byte_position(s, j)),
                    };
                    assert(token_in_text(s, t)) by {
                        reveal(token_in_text);
                    }
                    lemma_prepend_in_order(s, t, rest);
                }
            }
        } else if c == '#' {
            lemma_scan(s, i + 1, CharClass::FormatChar);
            let j = scan(s, i + 1, CharClass::FormatChar);
            if j > i + 1 {
                lemma_lex_from_in_order(s, j);
                if let Ok(rest) = lex_from(s, j) {
                    let t = TokenV {
                        kind: TokenKind::Format,
                        text: s.subrange(i + 1, j),
                        start: i,
                        end: j,
                        text_bytes: (byte_position(s, i + 1), byte_position(s, j)),
                    };
                    assert(token_in_text(s, t)) by {
                        reveal(token_in_text);
                    }
                    lemma_prepend_in_order(s, t, rest);
                }
            }
        }
    }
}

/// The tokens of a text lie within it, in order and without overlap, and
/// each token's text is the text at its place.
pub proof fn law_tokens_in_text(s: Seq<char>)
    ensures
        lex(s) matches Ok(ts) ==> tokens_in_order(s, ts),
{
    lemma_lex_from_in_order(s, 0);
}

} // verus!
