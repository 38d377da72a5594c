//! The protobuf transport, which is reserved.

use vstd::prelude::*;
use vstd::string::*;

verus! {

broadcast use vstd::string::group_string_axioms;

/// Refuses a request. No framing is defined for this transport yet, so the
/// stream cannot be resynchronized: the connection is closed.
pub fn handle() -> (r: Result<(), String>)
    ensures
        r is Err,
        r->Err_0@ == "the protobuf transport is not implemented yet; use the XML transport"@,
{
    Err("the protobuf transport is not implemented yet; use the XML transport".to_owned())
}

} // verus!
