//! The plain conversation: one question, one answer, no tools. Also how
//! both conversations read the model's answer: an answer that holds no
//! reply is a failure of the invocation, never a reply.

use crate::payload::{json_strings, reply_content, reply_path, string_at};
use crate::text::opt_text;
use crate::transcript::{MessageModel, Role, Transcript};
use vstd::prelude::*;
use vstd::string::*;

verus! {

/// The system instruction of the plain conversation.
pub const PLAIN_SYSTEM_PROMPT: &'static str =
    "You are a helpful browser assistant. Keep responses concise and helpful.";

/// What an invocation fails with where the model's answer holds no reply.
pub const NO_AI_RESPONSE: &'static str = "No response from AI";

/// How the demo answer opens, before the request is quoted.
pub const DEMO_RESPONSE_HEAD: &'static str = "Demo response: I understand you're asking about '";

/// How the demo answer closes, after the request is quoted.
pub const DEMO_RESPONSE_TAIL: &'static str =
    "'. This is a demo response since no OpenAI API key is configured.";

/// The transcript of the plain conversation about `prompt`.
pub open spec fn plain_seeded(prompt: Seq<char>) -> Seq<MessageModel> {
    seq![
        MessageModel { role: Role::System, content: PLAIN_SYSTEM_PROMPT@ },
        MessageModel { role: Role::User, content: prompt },
    ]
}

/// The answer that stands in for the model's where no credential is
/// configured.
pub open spec fn demo_response_text(prompt: Seq<char>) -> Seq<char> {
    DEMO_RESPONSE_HEAD@ + prompt + DEMO_RESPONSE_TAIL@
}

/// The reply, or the failure of the invocation where there is none.
pub open spec fn or_error(content: Option<Seq<char>>) -> Result<Seq<char>, Seq<char>> {
    match content {
        Some(reply) => Ok(reply),
        None => Err(NO_AI_RESPONSE@),
    }
}

/// What a result of strings holds.
pub open spec fn result_text(r: Result<String, String>) -> Result<Seq<char>, Seq<char>> {
    match r {
        Ok(s) => Ok(s@),
        Err(e) => Err(e@),
    }
}

/// The transcript that the plain conversation sends: its system
/// instruction, then the user's request.
pub fn plain_transcript(prompt: &str) -> (t: Transcript)
    ensures
        t@ == plain_seeded(prompt@),
{
    let mut t = Transcript::new(String::from_str(PLAIN_SYSTEM_PROMPT));
    t.push(Role::User, String::from_str(prompt));
    proof {
        assert(t@ =~= plain_seeded(prompt@));
    }
    t
}

/// The answer that stands in for the model's where no credential is
/// configured.
pub fn demo_response(prompt: &str) -> (r: String)
    ensures
        r@ == demo_response_text(prompt@),
{
    String::from_str(DEMO_RESPONSE_HEAD).concat(prompt).concat(DEMO_RESPONSE_TAIL)
}

/// The reply that a conversation goes on with: the content of the model's
/// answer, and the failure [`NO_AI_RESPONSE`] where there is none.
pub fn reply_or_error(content: Option<String>) -> (r: Result<String, String>)
    ensures
        result_text(r) == or_error(opt_text(content)),
{
    match content {
        Some(reply) => Ok(reply),
        None => Err(String::from_str(NO_AI_RESPONSE)),
    }
}

/// Reads the reply out of the model's answer, for the agent and for the
/// plain conversation alike.
///
/// The reply is the string at `choices[0].message.content`. An answer
/// without one, be it an error report of the model's service or a document
/// of another shape, fails the invocation: the caller hands the error on
/// and asks the model nothing more.
pub fn model_reply(body: &serde_json::Value) -> (r: Result<String, String>)
    ensures
        r is Err <==> string_at(json_strings(*body), reply_path()) is None,
        result_text(r) == or_error(string_at(json_strings(*body), reply_path())),
{
    reply_or_error(reply_content(body))
}

} // verus!
