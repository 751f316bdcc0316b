//! Decisions about the output of the compiler; writing it is left to the caller.
use vstd::prelude::*;

use crate::parser::CompileError;
use crate::util::ParseError;
use crate::lexer::{advance_offset, byte_offset, byte_position, chars_of};

verus! {

/// The documents, each introduced by a `---` line, one after the other.
pub open spec fn combined(documents: Seq<Seq<char>>) -> Seq<char>
    decreases documents.len(),
{
    if documents.len() == 0 {
        Seq::empty()
    } else {
        combined(documents.drop_last()) + "---\n"@ + documents.last()
    }
}

/// Puts serialized documents into one YAML stream.
pub fn combine_apis(documents: &Vec<String>) -> (content: String)
    ensures
        content@ == combined(documents@.map_values(|d: String| d@)),
{
    let ghost dv = documents@.map_values(|d: String| d@);
    let mut content = String::new();
    let mut k: usize = 0;
    assert(dv.take(0) =~= Seq::<Seq<char>>::empty());
    while k < documents.len()
        invariant
            k <= documents.len(),
            dv == documents@.map_values(|d: String| d@),
            content@ == combined(dv.take(k as int)),
        decreases documents.len() - k,
    {
        assert(dv.take(k + 1).drop_last() == dv.take(k as int));
        assert(dv.take(k + 1).last() == documents@[k as int]@);
        content.append("---\n");
        content.append(documents[k].as_str());
        k = k + 1;
    }
    assert(dv.take(documents.len() as int) == dv);
    content
}

/// Where the documents go: to standard output, into the one file named, or
/// into one file per API inside the directory named.
#[derive(Debug, Clone, Copy, PartialEq, Eq, Structural)]
pub enum OutputPlan {
    Stdout,
    SingleFile,
    FilePerApi,
}

/// With no output path the documents go to standard output; with one, up to
/// two documents go into that file and more go into one file each.
pub fn output_plan(api_count: usize, has_output: bool) -> (plan: OutputPlan)
    ensures
        plan == (if !has_output {
            OutputPlan::Stdout
        } else if api_count <= 2 {
            OutputPlan::SingleFile
        } else {
            OutputPlan::FilePerApi
        }),
{
    if !has_output {
        OutputPlan::Stdout
    } else if api_count <= 2 {
        OutputPlan::SingleFile
    } else {
        OutputPlan::FilePerApi
    }
}

/// Whether the documents are written to the single output path: they are
/// where the path names a file or nothing yet.
pub fn may_write_file(is_file: bool, exists: bool) -> (b: bool)
    ensures
        b == (is_file || !exists),
{
    is_file || !exists
}

/// A region given by character positions, given by byte offsets instead.
pub open spec fn byte_span(s: Seq<char>, span: Option<(usize, usize)>) -> Option<(usize, usize)> {
    match span {
        Some((start, end)) => Some((byte_position(s, start as int), byte_position(s, end as int))),
        None => None,
    }
}

/// The byte offset of the character at position `i` of `chars`.
fn offset_of(chars: &Vec<char>, i: usize) -> (b: usize)
    ensures
        b == byte_position(chars@, i as int),
{
    if i <= chars.len() {
        advance_offset(chars, 0, 0, i)
    } else {
        let b = advance_offset(chars, 0, 0, chars.len());
        assert(byte_offset(chars@, i as int) == byte_offset(chars@, chars.len() as int));
        b
    }
}

/// Which errors are reported against the source text: parse errors are
/// handed back for reporting, with their place given in bytes of `src`;
/// other errors are passed on.
pub fn handle_error(src: &str, error: CompileError) -> (r: Result<ParseError, CompileError>)
    ensures
        match error {
            CompileError::Parse(p) => r matches Ok(q) && q.message == p.message && q.span == byte_span(src@, p.span),
            _ => r == Err::<ParseError, CompileError>(error),
        },
{
    match error {
        CompileError::Parse(p) => {
            let span = match p.span {
                Some((start, end)) => {
                    let chars = chars_of(src);
                    Some((offset_of(&chars, start), offset_of(&chars, end)))
                },
                None => None,
            };
            Ok(ParseError { message: p.message, span })
        },
        other => Err(other),
    }
}

} // verus!
