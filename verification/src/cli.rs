//! The command line: its arguments, and the compilation that it runs.
use vstd::prelude::*;

use crate::generator::{can_generate, gen_document, generable, generate};
use crate::openapi::{open_apis_view, OpenApi};
use crate::parser::{error_view, parse, parse_spec, CompileError};

verus! {

/// The arguments of the command line.
#[derive(Debug)]
pub struct Args {
    pub command: Commands,
}

/// What the command line asks for.
#[derive(Debug, Clone)]
pub enum Commands {
    /// Compile the source file `file`; the documents go to `output` or,
    /// where it is not given, to standard output.
    Compile { file: String, output: Option<String> },
}

/// Whether the document that `src` reads as, if it reads as one, is one the
/// generator handles.
pub open spec fn compilable(src: Seq<char>) -> bool {
    match parse_spec(src) {
        Ok(doc) => generable(doc),
        Err(_) => true,
    }
}

/// Whether `compile` may be called on the source text (see `compilable`):
/// false exactly where the text reads as a document that the generator does
/// not handle.
pub fn can_compile(src: &str) -> (b: bool)
    ensures
        b == compilable(src@),
{
    match parse(src) {
        Ok(doc) => can_generate(&doc),
        Err(_) => true,
    }
}

/// The OpenAPI documents of a source text, one per API, or the error that
/// stops its reading.
pub fn compile(src: &str) -> (r: Result<Vec<OpenApi>, CompileError>)
    requires
        compilable(src@),
    ensures
        match parse_spec(src@) {
            Ok(doc) => r is Ok && open_apis_view(r->Ok_0@) == gen_document(doc),
            Err(e) => r is Err && error_view(r->Err_0) == e,
        },
{
    match parse(src) {
        Ok(doc) => Ok(generate(&doc)),
        Err(e) => Err(e),
    }
}

} // verus!
