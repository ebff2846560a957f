use vstd::prelude::*;

verus! {

/// The request part of an Autodiscover request.
pub struct Request {
    pub email: String,
}

/// An Autodiscover request.
pub struct Autodiscover {
    pub request: Request,
}

} // verus!
