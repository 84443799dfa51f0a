//! What the batch writer decides: where batches go, what a request carries,
//! and which responses count as failures. The HTTP exchange itself belongs
//! to the caller.

use crate::message::views;
use crate::text::push_str;
use vstd::prelude::*;

verus! {

/// Why a batch could not be written.
#[derive(Debug)]
pub enum WriteError {
    /// No response: connection, timeout or an unreadable body.
    Transport(String),
    /// The sink answered with a client or server error status and a reason.
    Rejected(u16, String),
}

/// Client (4xx) and server (5xx) error statuses.
pub open spec fn is_error(status: u16) -> bool {
    400 <= status <= 599
}

/// Whether a response status rejects the batch.
pub fn is_error_status(status: u16) -> (r: bool)
    ensures
        r == is_error(status),
{
    400 <= status && status <= 599
}

/// The outcome of one write attempt, given the response status and, for an
/// error status, the reason the sink gave.
pub fn outcome(status: u16, reason: String) -> (r: Result<(), WriteError>)
    ensures
        !is_error(status) ==> r is Ok,
        is_error(status) ==> (r matches Err(WriteError::Rejected(s, t)) && s == status && t@
            == reason@),
{
    if is_error_status(status) {
        Err(WriteError::Rejected(status, reason))
    } else {
        Ok(())
    }
}

/// The first `n` lines joined with newlines.
pub open spec fn joined(lines: Seq<Seq<char>>, n: int) -> Seq<char>
    decreases n,
{
    if n <= 0 {
        seq![]
    } else if n == 1 {
        lines[0]
    } else {
        joined(lines, n - 1) + "\n"@ + lines[n - 1]
    }
}

/// The request body of a batch: its lines joined with newlines.
pub fn request_body(lines: &Vec<String>) -> (r: String)
    ensures
        r@ == joined(views(lines@), lines@.len() as int),
{
    let ghost v = views(lines@);
    let mut body = String::new();
    let mut i: usize = 0;
    while i < lines.len()
        invariant
            v == views(lines@),
            i <= lines@.len(),
            body@ == joined(v, i as int),
        decreases lines.len() - i,
    {
        if i > 0 {
            push_str(&mut body, "\n");
        }
        push_str(&mut body, lines[i].as_str());
        assert(v[i as int] == lines@[i as int]@);
        assert(body@ =~= joined(v, i + 1));
        i += 1;
    }
    body
}

/// Path and query of the write endpoint.
pub struct Endpoint {
    pub path: String,
    pub query: Option<String>,
}

/// `r` is the endpoint for the given target: organisation and bucket (both
/// needed), else a database, else the bare write path.
pub open spec fn endpoint_for(
    org: Option<Seq<char>>,
    bucket: Option<Seq<char>>,
    database: Option<Seq<char>>,
    r: Endpoint,
) -> bool {
    if org is Some && bucket is Some {
        r.path@ == "/api/v2/write"@ && (r.query matches Some(q) && q@ == "org="@ + org->0
            + "&bucket="@ + bucket->0)
    } else if database is Some {
        r.path@ == "/write"@ && (r.query matches Some(q) && q@ == "db="@ + database->0)
    } else {
        r.path@ == "/write"@ && r.query is None
    }
}

pub open spec fn view_of(s: Option<&str>) -> Option<Seq<char>> {
    match s {
        Some(t) => Some(t@),
        None => None,
    }
}

/// The write endpoint for an organisation and bucket, or a database.
pub fn write_endpoint(org: Option<&str>, bucket: Option<&str>, database: Option<&str>) -> (r:
    Endpoint)
    ensures
        endpoint_for(view_of(org), view_of(bucket), view_of(database), r),
{
    let mut path = String::new();
    match (org, bucket) {
        (Some(o), Some(b)) => {
            push_str(&mut path, "/api/v2/write");
            let mut q = String::new();
            push_str(&mut q, "org=");
            push_str(&mut q, o);
            push_str(&mut q, "&bucket=");
            push_str(&mut q, b);
            return Endpoint { path, query: Some(q) };
        },
        _ => {},
    }
    push_str(&mut path, "/write");
    match database {
        Some(d) => {
            let mut q = String::new();
            push_str(&mut q, "db=");
            push_str(&mut q, d);
            Endpoint { path, query: Some(q) }
        },
        None => Endpoint { path, query: None },
    }
}

/// The value of the authorization header for an API token.
pub fn authorization(token: &str) -> (r: String)
    ensures
        r@ == "Token "@ + token@,
{
    let mut r = String::new();
    push_str(&mut r, "Token ");
    push_str(&mut r, token);
    r
}

} // verus!
