//! Replies of the `ask_user` tool.

use vstd::prelude::*;
use crate::text::{join_strs, joined, owned, push_str};

verus! {

/// How waiting for the user's answer ended.
pub enum AskOutcome {
    /// The user answered.
    Replied(String),
    /// The reply channel closed without an answer.
    Closed,
    /// No answer came in time.
    TimedOut,
}

/// The tool's reply for an outcome; `headers` are the short titles of the
/// questions asked.
pub fn ask_user_reply(outcome: AskOutcome, headers: &[String]) -> (r: String)
    ensures
        r@ == match outcome {
            AskOutcome::Replied(a) => a@,
            AskOutcome::Closed => "ask_user cancelled: reply channel closed"@,
            AskOutcome::TimedOut => "ask_user timed out after 300s: no reply received for: "@
                + joined(headers@.map_values(|h: String| h@), "; "@),
        },
{
    match outcome {
        AskOutcome::Replied(a) => a,
        AskOutcome::Closed => owned("ask_user cancelled: reply channel closed"),
        AskOutcome::TimedOut => {
            let mut r = owned("ask_user timed out after 300s: no reply received for: ");
            let list = join_strs(headers, "; ");
            push_str(&mut r, list.as_str());
            r
        },
    }
}

/// The reply when `ask_user` is called outside a streaming session.
pub fn not_streaming() -> (r: String)
    ensures
        r@ == "ask_user is only available in streaming mode"@,
{
    owned("ask_user is only available in streaming mode")
}

} // verus!
