//! What the REST interface answers when a request fails: the status and the
//! body of the reply.

use vstd::prelude::*;
use vstd::string::StringExecFns;

verus! {

/// The status of a reply to a request that could not be understood.
pub const BAD_REQUEST: u16 = 400;

/// The status of a reply to a request that the node failed to serve.
pub const INTERNAL_SERVER_ERROR: u16 = 500;

/// What went wrong while a request about fragments was served.
#[derive(Clone, Copy, Debug, PartialEq, Eq)]
pub enum ErrorKind {
    /// The request named a public key that cannot be read.
    PublicKey,
    /// The request named a hash that cannot be read.
    Hash,
    /// The request held text that is not in base 16.
    Hex,
    /// Anything else: the fault lies with the node.
    Other,
}

/// One line for each cause, in their order: an arrow, the cause, a line feed.
pub open spec fn causes_text(causes: Seq<String>) -> Seq<char>
    decreases causes.len(),
{
    if causes.len() == 0 {
        Seq::empty()
    } else {
        causes_text(causes.drop_last()) + "-> "@ + causes.last()@ + "\n"@
    }
}

/// The body of the reply for a fault of the node: the error on the first
/// line, then its causes.
pub open spec fn internal_error_body(error: Seq<char>, causes: Seq<String>) -> Seq<char> {
    "Internal server error: "@ + error + "\n"@ + causes_text(causes)
}

/// Writes out an error and the chain of its causes, the nearest cause first,
/// as the body of a reply.
pub fn display_internal_server_error(error: &str, causes: &Vec<String>) -> (body: String)
    ensures
        body@ == internal_error_body(error@, causes@),
{
    let mut body = String::from_str("Internal server error: ");
    body.append(error);
    body.append("\n");
    let mut i: usize = 0;
    while i < causes.len()
        invariant
            i <= causes@.len(),
            body@ == internal_error_body(error@, causes@.take(i as int)),
        decreases causes@.len() - i,
    {
        proof {
            assert(causes@.take(i + 1).drop_last() =~= causes@.take(i as int));
        }
        body.append("-> ");
        body.append(causes[i].as_str());
        body.append("\n");
        i += 1;
        assert(body@ =~= internal_error_body(error@, causes@.take(i as int)));
    }
    assert(causes@.take(i as int) =~= causes@);
    body
}

/// The body and the status of the reply to a failed request. A request that
/// could not be understood gets the error itself back, as a bad request. Any
/// other failure is reported with its causes, as a fault of the node.
pub fn handle_rejection(kind: ErrorKind, error: &str, causes: &Vec<String>) -> (reply: (String, u16))
    ensures
        kind != ErrorKind::Other ==> reply.0@ == error@ && reply.1 == BAD_REQUEST,
        kind == ErrorKind::Other ==> reply.0@ == internal_error_body(error@, causes@) && reply.1
            == INTERNAL_SERVER_ERROR,
{
    match kind {
        ErrorKind::PublicKey | ErrorKind::Hash | ErrorKind::Hex => (
            String::from_str(error),
            BAD_REQUEST,
        ),
        ErrorKind::Other => (display_internal_server_error(error, causes), INTERNAL_SERVER_ERROR),
    }
}

} // verus!
