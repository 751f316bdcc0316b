//! Small operations on text and shared schemas.
use vstd::prelude::*;
use std::rc::Rc;

use crate::ast::Schema;

verus! {

/// `String::push`: appends one character.
#[verifier::external_body]
pub(crate) fn push_char(s: &mut String, c: char)
    ensures
        final(s)@ == old(s)@.push(c),
{
    s.push(c);
}

/// Whether two string slices have the same characters.
pub(crate) fn same_text(a: &str, b: &str) -> (r: bool)
    ensures
        r == (a@ == b@),
{
    a.to_owned() == b.to_owned()
}

/// `<Rc as Clone>::clone`: another handle on the same schema.
#[verifier::external_body]
pub(crate) fn share_schema(schema: &Rc<Schema>) -> (r: Rc<Schema>)
    ensures
        r == *schema,
{
    Rc::clone(schema)
}

} // verus!
