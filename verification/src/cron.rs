//! In-process protocol client for scheduled jobs.

use vstd::prelude::*;
use crate::protocol::ServerMessage;

verus! {

/// In-process protocol client that delegates to a server implementation.
///
/// No socket overhead: a request is dispatched to the server directly and
/// answered by the first message of the reply stream.
pub struct CronClient<S> {
    /// The server that requests are dispatched to.
    pub server: S,
}

impl<S> CronClient<S> {
    /// Wrap a server implementation as an in-process client.
    pub fn new(server: S) -> (r: Self)
        ensures
            r.server == server,
    {
        CronClient { server }
    }
}

/// A reply stream that ended before its first message.
#[derive(Clone, Copy, Debug, PartialEq, Eq, Structural)]
pub struct EmptyResponse;

impl EmptyResponse {
    /// The error's message.
    pub fn message(&self) -> (r: String)
        ensures
            r@ == "server returned empty response"@,
    {
        crate::text::owned("server returned empty response")
    }
}

/// The answer to a request: the first message of the reply stream.
pub fn first_response(first: Option<ServerMessage>) -> (r: Result<ServerMessage, EmptyResponse>)
    ensures
        match first {
            Some(m) => r == Ok::<ServerMessage, EmptyResponse>(m),
            None => r == Err::<ServerMessage, EmptyResponse>(EmptyResponse),
        },
{
    match first {
        Some(m) => Ok(m),
        None => Err(EmptyResponse),
    }
}

} // verus!
