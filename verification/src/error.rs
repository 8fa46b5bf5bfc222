//! The errors of the server's own parts, as far as the protocols tell them apart.

use vstd::prelude::*;

verus! {

/// What went wrong.
#[derive(Debug)]
pub enum ErrorKind {
    RejectedAuthz,
    BadRequest { detail: String },
    PlanError,
    Config,
    CollectionNotFound,
    DocumentNotFound,
    Other,
}

/// An error, with the text that it is reported in.
#[derive(Debug)]
pub struct Error {
    pub kind: ErrorKind,
    pub text: String,
}

} // verus!
