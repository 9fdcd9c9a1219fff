//! The chat-shaped provider client (an Ollama-style endpoint): its
//! configuration and the exact request body it posts. As with the other
//! client, the HTTP transport is a collaborator outside the library, and
//! the raw response goes to the extraction scanner.
use vstd::prelude::*;

use crate::extract::json_escape;
use crate::extract::json_escape_spec;
use crate::text::append_str;

verus! {

/// Why a chat call failed: an I/O failure, a transport process failure
/// with its captured streams, or a response without an extractable answer.
#[derive(Clone, Debug)]
pub enum OllamaError {
    Io(String),
    CommandFailed { code: Option<i32>, stdout: String, stderr: String },
    ParseFailed(String),
}

/// Configuration of the chat-shaped provider client.
#[derive(Clone, Debug)]
pub struct OllamaApi {
    pub base_url: String,
    pub timeout_secs: u64,
}

impl OllamaApi {
    /// Build the client for the given endpoint and per-call timeout.
    pub fn new(base_url: String, timeout_secs: u64) -> (r: OllamaApi)
        ensures
            r.base_url@ == base_url@,
            r.timeout_secs == timeout_secs,
    {
        OllamaApi { base_url, timeout_secs }
    }
}

/// The exact request body posted to the chat endpoint: the model, streaming
/// off, and a system and a user message, every embedded text JSON-escaped.
pub open spec fn chat_body_spec(
    model: Seq<char>,
    system_prompt: Seq<char>,
    user_prompt: Seq<char>,
) -> Seq<char> {
    "{\"model\":\""@ + json_escape_spec(model)
        + "\",\"stream\":false,\"messages\":[{\"role\":\"system\",\"content\":\""@
        + json_escape_spec(system_prompt) + "\"},{\"role\":\"user\",\"content\":\""@
        + json_escape_spec(user_prompt) + "\"}]}"@
}

/// Build the request body for the chat endpoint, per [`chat_body_spec`].
pub fn build_chat_body_json(model: &str, system_prompt: &str, user_prompt: &str) -> (r: String)
    ensures
        r@ == chat_body_spec(model@, system_prompt@, user_prompt@),
{
    let mut s = "{\"model\":\"".to_owned();
    let em = json_escape(model);
    append_str(&mut s, em.as_str());
    append_str(&mut s, "\",\"stream\":false,\"messages\":[{\"role\":\"system\",\"content\":\"");
    let es = json_escape(system_prompt);
    append_str(&mut s, es.as_str());
    append_str(&mut s, "\"},{\"role\":\"user\",\"content\":\"");
    let eu = json_escape(user_prompt);
    append_str(&mut s, eu.as_str());
    append_str(&mut s, "\"}]}");
    assert(s@ =~= chat_body_spec(model@, system_prompt@, user_prompt@));
    s
}

} // verus!
