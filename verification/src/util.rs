use vstd::prelude::*;
use std::rc::Rc;

use crate::ast::{Definition, Schema};

verus! {

/// The rules of the grammar, named as a parser generator would name them.
/// They appear in syntax error messages.
#[derive(Debug, Clone, Copy, PartialEq, Eq, Structural)]
pub enum Rule {
    ApiScript,
    EOI,
    Type,
    Schema,
    Api,
    Annotation,
    Identifier,
    String,
    NumberValue,
    HttpCode,
    Format,
    Method,
    Primitive,
    TypeDefinition,
    List,
    Kind,
    Field,
    ApiPath,
    Server,
    Endpoint,
    Parameter,
    Response,
    Colon,
    Comma,
    OpenBrace,
    CloseBrace,
    OpenBracket,
    CloseBracket,
    OpenParen,
    CloseParen,
    At,
    Question,
}

/// The name of a rule, as it appears in messages.
pub open spec fn rule_text(rule: Rule) -> Seq<char> {
    match rule {
        Rule::ApiScript => "ApiScript"@,
        Rule::EOI => "EOI"@,
        Rule::Type => "Type"@,
        Rule::Schema => "Schema"@,
        Rule::Api => "Api"@,
        Rule::Annotation => "Annotation"@,
        Rule::Identifier => "Identifier"@,
        Rule::String => "String"@,
        Rule::NumberValue => "NumberValue"@,
        Rule::HttpCode => "HttpCode"@,
        Rule::Format => "Format"@,
        Rule::Method => "Method"@,
        Rule::Primitive => "Primitive"@,
        Rule::TypeDefinition => "TypeDefinition"@,
        Rule::List => "List"@,
        Rule::Kind => "Kind"@,
        Rule::Field => "Field"@,
        Rule::ApiPath => "ApiPath"@,
        Rule::Server => "Server"@,
        Rule::Endpoint => "Endpoint"@,
        Rule::Parameter => "Parameter"@,
        Rule::Response => "Response"@,
        Rule::Colon => "Colon"@,
        Rule::Comma => "Comma"@,
        Rule::OpenBrace => "OpenBrace"@,
        Rule::CloseBrace => "CloseBrace"@,
        Rule::OpenBracket => "OpenBracket"@,
        Rule::CloseBracket => "CloseBracket"@,
        Rule::OpenParen => "OpenParen"@,
        Rule::CloseParen => "CloseParen"@,
        Rule::At => "At"@,
        Rule::Question => "Question"@,
    }
}

/// The name of a rule, as it appears in messages.
pub fn rule_name(rule: Rule) -> (name: &'static str)
    ensures
        name@ == rule_text(rule),
{
    match rule {
        Rule::ApiScript => "ApiScript",
        Rule::EOI => "EOI",
        Rule::Type => "Type",
        Rule::Schema => "Schema",
        Rule::Api => "Api",
        Rule::Annotation => "Annotation",
        Rule::Identifier => "Identifier",
        Rule::String => "String",
        Rule::NumberValue => "NumberValue",
        Rule::HttpCode => "HttpCode",
        Rule::Format => "Format",
        Rule::Method => "Method",
        Rule::Primitive => "Primitive",
        Rule::TypeDefinition => "TypeDefinition",
        Rule::List => "List",
        Rule::Kind => "Kind",
        Rule::Field => "Field",
        Rule::ApiPath => "ApiPath",
        Rule::Server => "Server",
        Rule::Endpoint => "Endpoint",
        Rule::Parameter => "Parameter",
        Rule::Response => "Response",
        Rule::Colon => "Colon",
        Rule::Comma => "Comma",
        Rule::OpenBrace => "OpenBrace",
        Rule::CloseBrace => "CloseBrace",
        Rule::OpenBracket => "OpenBracket",
        Rule::CloseBracket => "CloseBracket",
        Rule::OpenParen => "OpenParen",
        Rule::CloseParen => "CloseParen",
        Rule::At => "At",
        Rule::Question => "Question",
    }
}

/// A region of the source text: the positions (in characters) of its first
/// character and of the character after its last one.
#[derive(Debug, Clone, Copy, PartialEq, Eq, Structural)]
pub struct Span {
    pub start: usize,
    pub end: usize,
}

/// An error found while reading the source text: a message and, where the
/// error has a place in the text, its span as a pair of character positions.
#[derive(Debug)]
pub struct ParseError {
    pub message: String,
    pub span: Option<(usize, usize)>,
}

/// The message of an error that expected one rule and found another.
pub open spec fn expected_message(expected: Rule, found: Rule) -> Seq<char> {
    "Expected "@ + rule_text(expected) + " but found "@ + rule_text(found)
}

/// The message of an error that expected a rule and found the end of input.
pub open spec fn none_message(expected: Rule) -> Seq<char> {
    "Expected "@ + rule_text(expected) + " but found none"@
}

impl ParseError {
    /// The error for a place where `expected` was due and `found` stood.
    pub fn expected(expected: Rule, found: Rule, at: Span) -> (error: Self)
        ensures
            error.message@ == expected_message(expected, found),
            error.span == Some((at.start, at.end)),
    {
        let mut message = String::from_str("Expected ");
        message.append(rule_name(expected));
        message.append(" but found ");
        message.append(rule_name(found));
        Self { message, span: Some((at.start, at.end)) }
    }

    /// The error for a place where `expected` was due and the input had ended.
    pub fn none(expected: Rule) -> (error: Self)
        ensures
            error.message@ == none_message(expected),
            error.span is None,
    {
        let mut message = String::from_str("Expected ");
        message.append(rule_name(expected));
        message.append(" but found none");
        Self { message, span: None }
    }
}

/// A type that is either given in place or refers to a named schema.
#[derive(Debug, Clone)]
pub enum ReferenceOr {
    Reference(Rc<Schema>),
    Actual(Definition),
}

impl ReferenceOr {
    /// A reference to the given schema.
    pub fn reference_to(reference: Schema) -> (r: Self)
        ensures
            r matches ReferenceOr::Reference(schema) && *schema == reference,
    {
        ReferenceOr::Reference(Rc::new(reference))
    }
}

} // verus!
