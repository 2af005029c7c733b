use vstd::prelude::*;

verus! {

/// A request to change the state of the service, with the error that
/// handling it can end in.
pub trait Command: Sized {
    type Error;
}

} // verus!
