//! What the HTTP primitives decide. A script may send a request only when it
//! is trusted; the request carries a bearer token when one is given; the
//! script gets the status code and the body text, or `-1` and an `ERR:`
//! text.

use vstd::prelude::*;

use super::trust_primitives::{gate_message, Gate, TrustState};
use crate::text::{string_from_chars, to_chars};

verus! {

/// What a script gets from an HTTP primitive: `[status, body]`.
pub struct HttpReply {
    pub status: i64,
    pub body: String,
}

/// The failure `msg`: status `-1`, body `ERR: ` and `msg`.
pub fn make_err(msg: &str) -> (r: HttpReply)
    ensures
        r.status == -1,
        r.body@ == "ERR: "@ + msg@,
{
    let mut out = to_chars("ERR: ");
    out.append(&mut to_chars(msg));
    HttpReply { status: -1, body: string_from_chars(out.as_slice()) }
}

/// The refusal an untrusted script gets, or `None` for a trusted one.
pub fn guard(t: &TrustState) -> (r: Option<HttpReply>)
    ensures
        t.trusted ==> r is None,
        !t.trusted ==> (r matches Some(rep) && rep.status == -1 && rep.body@ == gate_message(
            Gate::Http,
        )),
{
    match t.guard(Gate::Http) {
        Some(m) => Some(HttpReply { status: -1, body: m }),
        None => None,
    }
}

/// The bearer token a request carries: none for the empty text.
pub fn bearer_token(bearer: &str) -> (r: Option<String>)
    ensures
        bearer@.len() == 0 ==> r is None,
        bearer@.len() > 0 ==> (r matches Some(b) && b@ == bearer@),
{
    if bearer.is_empty() {
        None
    } else {
        Some(String::from_str(bearer))
    }
}

/// The reply to a request: the status code and body text of the response,
/// or, when no response came, the failure `request: ` and its reason.
pub fn reply_of(outcome: Result<(u16, String), String>) -> (r: HttpReply)
    ensures
        match outcome {
            Ok((status, body)) => r.status == status as i64 && r.body == body,
            Err(e) => r.status == -1 && r.body@ == "ERR: request: "@ + e@,
        },
{
    match outcome {
        Ok((status, body)) => HttpReply { status: status as i64, body },
        Err(e) => {
            let mut out = to_chars("request: ");
            out.append(&mut to_chars(e.as_str()));
            let m = string_from_chars(out.as_slice());
            let r = make_err(m.as_str());
            assert(r.body@ =~= "ERR: "@ + ("request: "@ + e@));
            assert("ERR: "@ + ("request: "@ + e@) =~= "ERR: request: "@ + e@) by {
                reveal_strlit("ERR: ");
                reveal_strlit("request: ");
                reveal_strlit("ERR: request: ");
            }
            r
        },
    }
}

/// The reply when the request could not even be started: `runtime: ` and
/// the reason.
pub fn runtime_failure(reason: &str) -> (r: HttpReply)
    ensures
        r.status == -1,
        r.body@ == "ERR: runtime: "@ + reason@,
{
    let mut out = to_chars("runtime: ");
    out.append(&mut to_chars(reason));
    let m = string_from_chars(out.as_slice());
    let r = make_err(m.as_str());
    assert("ERR: "@ + ("runtime: "@ + reason@) =~= "ERR: runtime: "@ + reason@) by {
        reveal_strlit("ERR: ");
        reveal_strlit("runtime: ");
        reveal_strlit("ERR: runtime: ");
    }
    r
}

} // verus!
