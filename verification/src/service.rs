//! The control-plane service type.  The service itself only reports a version
//! string over RPC; the transport lives outside the library.

use vstd::prelude::*;

verus! {

/// Handler state for the control-plane RPC service; it carries no data.
#[derive(Debug, PartialEq, Eq, Structural)]
pub struct RawstImpl {}

impl RawstImpl {
    pub fn new() -> (s: Self)
        ensures
            s == (RawstImpl {  }),
    {
        RawstImpl {  }
    }
}

} // verus!
