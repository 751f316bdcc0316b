//! Laws on the words of the language: what each keyword, format name and
//! annotation means, and how the meaning comes out in the generated schemas.
use vstd::prelude::*;

use crate::ast::{Constraint, FormatV, HttpMethod, IntegerFormat, Kind, NumberFormat, ParameterLocation, PrimitiveV, StringFormatV};
use crate::generator::{format_name, gen_primitive, has_format_name, primitive_ok, with_constraints};
use crate::openapi::{SchemaObjectV, StringFormatName};
use crate::parser::{format_named, read_annotations, token_text};
use crate::syntax::{method_named, primitive_named, Annotation};
use crate::lexer::TokenV;

verus! {

// ---------------------------------------------------------------------------
// Keywords.
// ---------------------------------------------------------------------------

/// An endpoint's method keyword names exactly one method, the one it spells:
/// `GET` is `Get`, `PUT` is `Put`, `POST` is `Post`, `PATCH` is `Patch` and
/// `DELETE` is `Delete`; every method is read from its keyword, and from no
/// other word.
pub proof fn law_method_keywords(w: Seq<char>, m: HttpMethod)
    ensures
        method_named(w) == Some(m) <==> w == match m {
            HttpMethod::Get => "GET"@,
            HttpMethod::Put => "PUT"@,
            HttpMethod::Post => "POST"@,
            HttpMethod::Patch => "PATCH"@,
            HttpMethod::Delete => "DELETE"@,
        },
{
    reveal_strlit("GET");
    reveal_strlit("PUT");
    reveal_strlit("POST");
    reveal_strlit("PATCH");
    reveal_strlit("DELETE");
    assert("GET"@ =~= seq!['G', 'E', 'T']);
    assert("PUT"@ =~= seq!['P', 'U', 'T']);
    assert("POST"@ =~= seq!['P', 'O', 'S', 'T']);
    assert("PATCH"@ =~= seq!['P', 'A', 'T', 'C', 'H']);
    assert("DELETE"@ =~= seq!['D', 'E', 'L', 'E', 'T', 'E']);
}

/// A primitive keyword names exactly the primitive it spells, and every
/// primitive is read from its keyword and from no other word.
pub proof fn law_primitive_keywords(w: Seq<char>, k: Kind)
    ensures
        primitive_named(w) == Some(k) <==> w == match k {
            Kind::String => "string"@,
            Kind::Number => "number"@,
            Kind::Integer => "integer"@,
            Kind::Boolean => "boolean"@,
        },
{
    reveal_strlit("string");
    reveal_strlit("number");
    reveal_strlit("integer");
    reveal_strlit("boolean");
    assert("string"@ =~= seq!['s', 't', 'r', 'i', 'n', 'g']);
    assert("number"@ =~= seq!['n', 'u', 'm', 'b', 'e', 'r']);
    assert("integer"@ =~= seq!['i', 'n', 't', 'e', 'g', 'e', 'r']);
    assert("boolean"@ =~= seq!['b', 'o', 'o', 'l', 'e', 'a', 'n']);
}

// ---------------------------------------------------------------------------
// Format names.
// ---------------------------------------------------------------------------

/// The name a format is written with.
pub open spec fn format_written(f: FormatV) -> Seq<char> {
    match f {
        FormatV::String(StringFormatV::Date) => "date"@,
        FormatV::String(StringFormatV::DateTime) => "date-time"@,
        FormatV::String(StringFormatV::Password) => "password"@,
        FormatV::String(StringFormatV::Byte) => "byte"@,
        FormatV::String(StringFormatV::Binary) => "binary"@,
        FormatV::String(StringFormatV::Email) => "email"@,
        FormatV::String(StringFormatV::Uuid) => "uuid"@,
        FormatV::String(StringFormatV::Uri) => "uri"@,
        FormatV::String(StringFormatV::Hostname) => "hostname"@,
        FormatV::String(StringFormatV::Ipv4) => "ipv4"@,
        FormatV::String(StringFormatV::Ipv6) => "ipv6"@,
        FormatV::String(StringFormatV::Custom(name)) => name,
        FormatV::Integer(IntegerFormat::Int32) => "int32"@,
        FormatV::Integer(IntegerFormat::Int64) => "int64"@,
        FormatV::Number(NumberFormat::Float) => "float"@,
        FormatV::Number(NumberFormat::Double) => "double"@,
    }
}

/// A format name reads as the format of that name: the name read back from
/// the format is the name it was read from. So two different names never
/// give the same format.
pub proof fn law_format_names_read_back(w: Seq<char>)
    ensures
        format_named(w) matches Some(f) ==> format_written(f) == w,
{
}

/// Every format is read from the name it is written with; a custom format is
/// one whose name starts with `x-`.
pub proof fn law_format_names_read(f: FormatV)
    requires
        f matches FormatV::String(StringFormatV::Custom(name)) ==> name.len() >= 2 && name[0] == 'x' && name[1] == '-',
    ensures
        format_named(format_written(f)) == Some(f),
{
    reveal_strlit("date");
    reveal_strlit("date-time");
    reveal_strlit("password");
    reveal_strlit("byte");
    reveal_strlit("binary");
    reveal_strlit("email");
    reveal_strlit("uuid");
    reveal_strlit("uri");
    reveal_strlit("hostname");
    reveal_strlit("ipv4");
    reveal_strlit("ipv6");
    reveal_strlit("int32");
    reveal_strlit("int64");
    reveal_strlit("float");
    reveal_strlit("double");
    assert("date"@ =~= seq!['d', 'a', 't', 'e']);
    assert("date-time"@ =~= seq!['d', 'a', 't', 'e', '-', 't', 'i', 'm', 'e']);
    assert("password"@ =~= seq!['p', 'a', 's', 's', 'w', 'o', 'r', 'd']);
    assert("byte"@ =~= seq!['b', 'y', 't', 'e']);
    assert("binary"@ =~= seq!['b', 'i', 'n', 'a', 'r', 'y']);
    assert("email"@ =~= seq!['e', 'm', 'a', 'i', 'l']);
    assert("uuid"@ =~= seq!['u', 'u', 'i', 'd']);
    assert("uri"@ =~= seq!['u', 'r', 'i']);
    assert("hostname"@ =~= seq!['h', 'o', 's', 't', 'n', 'a', 'm', 'e']);
    assert("ipv4"@ =~= seq!['i', 'p', 'v', '4']);
    assert("ipv6"@ =~= seq!['i', 'p', 'v', '6']);
    assert("int32"@ =~= seq!['i', 'n', 't', '3', '2']);
    assert("int64"@ =~= seq!['i', 'n', 't', '6', '4']);
    assert("float"@ =~= seq!['f', 'l', 'o', 'a', 't']);
    assert("double"@ =~= seq!['d', 'o', 'u', 'b', 'l', 'e']);
}

/// The name under which OpenAPI writes a string format.
pub open spec fn openapi_written(n: StringFormatName) -> Seq<char> {
    match n {
        StringFormatName::Date => "date"@,
        StringFormatName::DateTime => "date-time"@,
        StringFormatName::Password => "password"@,
        StringFormatName::Byte => "byte"@,
        StringFormatName::Binary => "binary"@,
    }
}

proof fn lemma_constraints_keep_string_format(format: Option<StringFormatName>, max: Option<usize>, cs: Seq<Constraint>)
    ensures
        with_constraints(SchemaObjectV::String { format, max_length: max }, cs) matches SchemaObjectV::String {
            format: f,
            ..
        } && f == format,
    decreases cs.len(),
{
    if cs.len() > 0 {
        lemma_constraints_keep_string_format(format, max, cs.drop_last());
    }
}

/// A string primitive whose format is written with one of the names that
/// OpenAPI gives string formats (date, date-time, password, byte, binary) can
/// be generated, whatever its constraints, and its schema is a string schema
/// whose format OpenAPI writes with that same name. A string format that can
/// be generated is always written with one of those names, and is rendered
/// under it.
pub proof fn law_string_formats_render_as_written(w: Seq<char>, constraints: Seq<Constraint>)
    ensures
        (w == "date"@ || w == "date-time"@ || w == "password"@ || w == "byte"@ || w == "binary"@) ==> (
        format_named(w) matches Some(f) && {
            let p = PrimitiveV { kind: Kind::String, format: Some(f), constraints };
            &&& primitive_ok(p)
            &&& gen_primitive(p) matches SchemaObjectV::String { format: Some(n), .. } && openapi_written(n) == w
        }),
        format_named(w) matches Some(FormatV::String(sf)) ==> (has_format_name(sf) ==> openapi_written(format_name(sf)) == w),
{
    reveal_strlit("date");
    reveal_strlit("date-time");
    reveal_strlit("password");
    reveal_strlit("byte");
    reveal_strlit("binary");
    reveal_strlit("email");
    reveal_strlit("uuid");
    reveal_strlit("uri");
    reveal_strlit("hostname");
    reveal_strlit("ipv4");
    reveal_strlit("ipv6");
    if let Some(FormatV::String(sf)) = format_named(w) {
        if has_format_name(sf) {
            lemma_constraints_keep_string_format(Some(format_name(sf)), None, constraints);
        }
    }
}

/// The schema kind that goes with a primitive kind.
pub open spec fn schema_of_kind(o: SchemaObjectV, k: Kind) -> bool {
    match k {
        Kind::String => o is String,
        Kind::Number => o is Number,
        Kind::Integer => o is Integer,
        Kind::Boolean => o is Boolean,
    }
}

proof fn lemma_constraints_keep_kind_and_format(o: SchemaObjectV, cs: Seq<Constraint>)
    ensures
        ({
            let after = with_constraints(o, cs);
            &&& (o is String <==> after is String)
            &&& (o is Number <==> after is Number)
            &&& (o is Integer <==> after is Integer)
            &&& (o is Boolean <==> after is Boolean)
            &&& (o matches SchemaObjectV::String { format, .. } ==> after matches SchemaObjectV::String { format: g, .. } && g == format)
            &&& (o matches SchemaObjectV::Number { format, .. } ==> after matches SchemaObjectV::Number { format: g, .. } && g == format)
            &&& (o matches SchemaObjectV::Integer { format, .. } ==> after matches SchemaObjectV::Integer { format: g, .. } && g == format)
        }),
    decreases cs.len(),
{
    if cs.len() > 0 {
        lemma_constraints_keep_kind_and_format(o, cs.drop_last());
    }
}

/// The schema of a primitive has the primitive's kind. A number or integer
/// format is kept as it was read; a format of another kind, or none, gives a
/// schema without format.
pub proof fn law_primitive_schema(p: PrimitiveV)
    ensures
        schema_of_kind(gen_primitive(p), p.kind),
        p.kind == Kind::Number ==> (gen_primitive(p) matches SchemaObjectV::Number { format, .. } && format == match p.format {
            Some(FormatV::Number(nf)) => Some(nf),
            _ => None,
        }),
        p.kind == Kind::Integer ==> (gen_primitive(p) matches SchemaObjectV::Integer { format, .. } && format == match p.format {
            Some(FormatV::Integer(f)) => Some(f),
            _ => None,
        }),
        p.kind == Kind::String && !(p.format matches Some(FormatV::String(_))) ==> (
        gen_primitive(p) matches SchemaObjectV::String { format, .. } && format is None),
{
    let base = match p.kind {
        Kind::String => match p.format {
            Some(FormatV::String(sf)) => SchemaObjectV::String { format: Some(format_name(sf)), max_length: None },
            _ => SchemaObjectV::String { format: None, max_length: None },
        },
        Kind::Number => match p.format {
            Some(FormatV::Number(nf)) => SchemaObjectV::Number { format: Some(nf), maximum: None },
            _ => SchemaObjectV::Number { format: None, maximum: None },
        },
        Kind::Integer => match p.format {
            Some(FormatV::Integer(inf)) => SchemaObjectV::Integer { format: Some(inf), maximum: None },
            _ => SchemaObjectV::Integer { format: None, maximum: None },
        },
        Kind::Boolean => SchemaObjectV::Boolean,
    };
    assert(gen_primitive(p) == with_constraints(base, p.constraints));
    lemma_constraints_keep_kind_and_format(base, p.constraints);
}

// ---------------------------------------------------------------------------
// Parameter annotations.
// ---------------------------------------------------------------------------

/// Whether the annotation names a place for the parameter.
pub open spec fn names_place(t: Seq<TokenV>, a: Annotation) -> bool {
    token_text(t, a.name as int) == "Path"@ || token_text(t, a.name as int) == "Query"@
}

proof fn lemma_place_from(
    t: Seq<TokenV>,
    anns: Seq<Annotation>,
    k: int,
    location: Option<ParameterLocation>,
    constraints: Seq<Constraint>,
)
    requires
        0 <= k,
    ensures
        (forall|j: int| k <= j < anns.len() ==> !names_place(t, #[trigger] anns[j])) ==> (
        read_annotations(t, anns, k, location, constraints) matches Ok((place, _)) ==> place == match location {
            Some(l) => l,
            None => ParameterLocation::Query,
        }),
        forall|j: int|
            k <= j < anns.len() && #[trigger] names_place(t, anns[j]) && (forall|m: int| j < m < anns.len() ==> !names_place(t, #[trigger] anns[m]))
                ==> (read_annotations(t, anns, k, location, constraints) matches Ok((place, _)) ==> place == if token_text(
                t,
                anns[j].name as int,
            ) == "Path"@ {
                ParameterLocation::Path
            } else {
                ParameterLocation::Query
            }),
    decreases anns.len() - k,
{
    if k < anns.len() {
        let name = token_text(t, anns[k].name as int);
        if name == "Path"@ {
            lemma_place_from(t, anns, k + 1, Some(ParameterLocation::Path), constraints);
        } else if name == "Query"@ {
            lemma_place_from(t, anns, k + 1, Some(ParameterLocation::Query), constraints);
        } else if name == "Max"@ {
            if let Some(v) = anns[k].value {
                if let Some(n) = crate::parser::decimal(token_text(t, v as int), usize::MAX as nat) {
                    lemma_place_from(t, anns, k + 1, location, constraints.push(Constraint::Maximum(n as usize)));
                }
            }
        } else {
            lemma_place_from(t, anns, k + 1, location, constraints);
        }
    }
}

/// Where a parameter is given: in the query unless an annotation says
/// otherwise; where annotations do, the last `@Path` or `@Query` decides.
pub proof fn law_parameter_place(t: Seq<TokenV>, anns: Seq<Annotation>)
    ensures
        (forall|j: int| 0 <= j < anns.len() ==> !names_place(t, #[trigger] anns[j])) ==> (
        read_annotations(t, anns, 0, None, Seq::empty()) matches Ok((place, _)) ==> place == ParameterLocation::Query),
        forall|j: int|
            0 <= j < anns.len() && #[trigger] names_place(t, anns[j]) && (forall|m: int| j < m < anns.len() ==> !names_place(t, #[trigger] anns[m]))
                ==> (read_annotations(t, anns, 0, None, Seq::empty()) matches Ok((place, _)) ==> place == if token_text(
                t,
                anns[j].name as int,
            ) == "Path"@ {
                ParameterLocation::Path
            } else {
                ParameterLocation::Query
            }),
{
    lemma_place_from(t, anns, 0, None, Seq::empty());
}

} // verus!
