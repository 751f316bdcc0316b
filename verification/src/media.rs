//! Media types of response bodies come from the `mediatype` crate.
use vstd::prelude::*;
use mediatype::{
    names::{APPLICATION, JSON},
    MediaTypeBuf,
};

verus! {

/// `MediaTypeBuf::new(APPLICATION, JSON)`, written out through its `Display`
/// implementation, which writes the type, a slash and the subtype (there is
/// no suffix and there are no parameters).
#[verifier::external_body]
pub(crate) fn json_media_type() -> (s: String)
    ensures
        s@ == "application/json"@,
{
    MediaTypeBuf::new(APPLICATION, JSON).to_string()
}

} // verus!
