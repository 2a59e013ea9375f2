//! Around the answer oracle: the transient-error classifier, the linear
//! backoff retry policy for oracle calls, and the conversation history
//! that gives the oracle context across a code-regeneration loop.

use vstd::prelude::*;
use crate::text::{contains_str, has_substring};

verus! {

/// A message marker the oracle's transport returns on a failure that is
/// worth retrying: server-side errors, overload, rate limits, timeouts,
/// and the malformed body a failing endpoint sends instead of an answer.
pub open spec fn spec_is_transient(msg: Seq<char>) -> bool {
    ||| has_substring(msg, "api_error"@)
    ||| has_substring(msg, "Internal server error"@)
    ||| has_substring(msg, "overloaded"@)
    ||| has_substring(msg, "rate_limit"@)
    ||| has_substring(msg, "timeout"@)
    ||| has_substring(msg, "missing field `id`"@)
}

/// Whether an oracle error message looks transient and the call should be
/// retried.
pub fn is_transient_error(msg: &str) -> (r: bool)
    ensures
        r == spec_is_transient(msg@),
{
    contains_str(msg, "api_error") || contains_str(msg, "Internal server error") || contains_str(
        msg,
        "overloaded",
    ) || contains_str(msg, "rate_limit") || contains_str(msg, "timeout") || contains_str(
        msg,
        "missing field `id`",
    )
}

/// Whether a failed oracle call is tried again: only a transient error,
/// and only while attempts remain before the cap.
pub fn should_retry_oracle(attempt: u32, max_retries: u32, transient: bool) -> (r: bool)
    ensures
        r == (transient && attempt + 1 < max_retries),
{
    transient && attempt < u32::MAX && attempt + 1 < max_retries
}

/// The delay before the next oracle retry: the base delay multiplied by
/// the attempt number, growing linearly, saturating at the largest
/// representable delay.
pub fn oracle_retry_delay_ms(base_ms: u64, attempt: u32) -> (r: u64)
    ensures
        base_ms * (attempt + 1) <= u64::MAX ==> r == base_ms * (attempt + 1),
        base_ms * (attempt + 1) > u64::MAX ==> r == u64::MAX,
{
    let factor: u64 = (attempt as u64) + 1;
    match base_ms.checked_mul(factor) {
        Some(v) => v,
        None => u64::MAX,
    }
}

/// Who spoke a conversation turn.
#[derive(Clone, Copy, Debug, PartialEq, Eq, Structural)]
pub enum ChatRole {
    User,
    Assistant,
}

/// One turn of the oracle conversation.
#[derive(Debug, Clone, PartialEq)]
pub struct ChatMessage {
    pub role: ChatRole,
    pub content: String,
}

/// An ordered, append-only message history: the context the oracle sees
/// when it regenerates code. Owned by one code-submission question's
/// retry loop and discarded when the question resolves. Messages are only
/// ever added at the end; none is changed or removed.
#[derive(Debug, Clone, PartialEq)]
pub struct Conversation {
    /// The turns so far, oldest first.
    pub messages: Vec<ChatMessage>,
}

impl Conversation {
    /// An empty history.
    pub fn new() -> (r: Self)
        ensures
            r.messages@.len() == 0,
    {
        Conversation { messages: Vec::new() }
    }

    /// Append one turn. The history so far is kept unchanged; the new
    /// turn goes at the end.
    pub fn add(&mut self, role: ChatRole, content: String)
        ensures
            final(self).messages@ == old(self).messages@.push(
                ChatMessage { role, content },
            ),
    {
        self.messages.push(ChatMessage { role, content });
    }

    /// How many turns the history holds.
    pub fn len(&self) -> (r: usize)
        ensures
            r == self.messages@.len(),
    {
        self.messages.len()
    }
}

/// Generated code together with the conversation that produced it, kept
/// for the next regeneration round.
#[derive(Debug, Clone, PartialEq)]
pub struct LlmCodeResult {
    /// Generated files as (filename, content) pairs.
    pub files: Vec<(String, String)>,
    /// The conversation history, for retries with test feedback.
    pub conversation: Conversation,
}

} // verus!
