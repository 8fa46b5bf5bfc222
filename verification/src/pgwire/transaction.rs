//! What a client is told of the beginning and the end of a transaction block.

use vstd::prelude::*;

use super::plan::{CommandTag, Response};
use crate::error::{Error, ErrorKind};

verus! {

/// An error as the protocol reports it.
#[derive(Debug)]
pub struct PgError {
    pub severity: String,
    pub code: String,
    pub message: String,
}

/// Whether the response is that of a bare command, with neither an object id nor a row count.
pub open spec fn is_bare(tag: CommandTag, command: Seq<char>) -> bool {
    tag.command@ == command && tag.oid is None && tag.rows is None
}

/// What is told of an error: its detail where the request was bad, its text otherwise.
pub open spec fn told(error: Error) -> Seq<char> {
    match error.kind {
        ErrorKind::BadRequest { detail } => detail@,
        _ => error.text@,
    }
}

/// The response to `BEGIN`, given whether the block could be begun. The start of a transaction is
/// reported as such, so that clients see the transaction status change.
pub fn handle_begin(begun: Result<(), Error>) -> (r: Result<Vec<Response>, PgError>)
    ensures
        r is Ok <==> begun is Ok,
        r matches Ok(responses) ==> {
            &&& responses@.len() == 1
            &&& responses@[0] matches Response::TransactionStart(tag)
            &&& is_bare(tag, "BEGIN"@)
        },
        begun matches Err(error) ==> {
            &&& r matches Err(e)
            &&& e.severity@ == "ERROR"@
            &&& e.code@ == "25P02"@
            &&& e.message@ == told(error)
        },
{
    match begun {
        Ok(()) => {
            let mut responses: Vec<Response> = Vec::new();
            responses.push(Response::TransactionStart(CommandTag::new("BEGIN")));
            Ok(responses)
        },
        Err(error) => {
            let message = match error.kind {
                ErrorKind::BadRequest { detail } => detail,
                _ => error.text,
            };
            Err(PgError { severity: "ERROR".to_owned(), code: "25P02".to_owned(), message })
        },
    }
}

/// The response to `ROLLBACK`, which always succeeds.
pub fn handle_rollback() -> (r: Vec<Response>)
    ensures
        r@.len() == 1,
        r@[0] matches Response::TransactionEnd(tag) && is_bare(tag, "ROLLBACK"@),
{
    let mut responses: Vec<Response> = Vec::new();
    responses.push(Response::TransactionEnd(CommandTag::new("ROLLBACK")));
    responses
}

} // verus!
