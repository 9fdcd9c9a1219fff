//! The OpenAI-shaped provider client: its configuration with defaults, the
//! exact request body it posts, and the rendering of its errors. The HTTP
//! transport itself (curl or PowerShell) is a collaborator outside the
//! library; it hands the raw response body to the extraction scanner.
use vstd::prelude::*;

use crate::extract::json_escape;
use crate::extract::json_escape_spec;
use crate::setting::LlmService;
use crate::text::append_str;
use crate::text::dec_str_of_i32;
use crate::text::i32_to_string;

verus! {

/// Why a provider call failed: no credential, a transport process failure
/// with its captured streams, an I/O failure, or a response the scanner
/// could not extract an answer from.
#[derive(Clone, Debug)]
pub enum ScyApiError {
    MissingApiKey,
    Io(String),
    CommandFailed { code: Option<i32>, stdout: String, stderr: String },
    ParseFailed(String),
}

/// Configuration of the OpenAI-shaped provider client.
#[derive(Clone, Debug)]
pub struct ScyApi {
    pub base_url: String,
    pub model: String,
    pub timeout_secs: u64,
    pub store: bool,
}

impl ScyApi {
    /// Build the client from optional overrides, falling back to the
    /// standard base URL, the default model and a 60 second timeout;
    /// response storage stays off.
    pub fn new(base_url: Option<String>, model: Option<String>, timeout_secs: Option<u64>) -> (r:
        ScyApi)
        ensures
            r.base_url@ == (match base_url {
                Some(b) => b@,
                None => "https://api.openai.com"@,
            }),
            r.model@ == (match model {
                Some(m) => m@,
                None => "gpt-4.1"@,
            }),
            r.timeout_secs == (match timeout_secs {
                Some(t) => t,
                None => 60u64,
            }),
            r.store == false,
    {
        let burl = match base_url {
            Some(b) => b,
            None => "https://api.openai.com".to_owned(),
        };
        let m = match model {
            Some(m) => m,
            None => "gpt-4.1".to_owned(),
        };
        let t = match timeout_secs {
            Some(t) => t,
            None => 60,
        };
        ScyApi { base_url: burl, model: m, timeout_secs: t, store: false }
    }
}

/// The dispatch decision of a generation request: the OpenAI-shaped flow
/// serves the OpenAI service; the Gemini service is not wired yet, and a
/// call for it must fail with exactly this error before any transport
/// work.
pub fn service_dispatch_error(svc: LlmService) -> (r: Option<ScyApiError>)
    ensures
        svc == LlmService::OpenAI ==> r is None,
        svc == LlmService::Gemini ==> (r matches Some(e) && (e matches ScyApiError::ParseFailed(m)
            && m@ == "Gemini not implemented yet"@)),
{
    match svc {
        LlmService::OpenAI => None,
        LlmService::Gemini => Some(ScyApiError::ParseFailed("Gemini not implemented yet".to_owned())),
    }
}

/// The exact request body posted to the responses endpoint: the model, a
/// system and a user message, the JSON-object output format, and the store
/// flag, every embedded text JSON-escaped.
pub open spec fn responses_body_spec(
    model: Seq<char>,
    system_prompt: Seq<char>,
    user_prompt: Seq<char>,
    store: bool,
) -> Seq<char> {
    "{\"model\":\""@ + json_escape_spec(model)
        + "\",\"input\":[{\"role\":\"system\",\"content\":\""@ + json_escape_spec(system_prompt)
        + "\"},{\"role\":\"user\",\"content\":\""@ + json_escape_spec(user_prompt)
        + "\"}],\"text\":{\"format\":{\"type\":\"json_object\"}},\"store\":"@ + (if store {
        "true"@
    } else {
        "false"@
    }) + "}"@
}

/// Build the request body for the responses endpoint, per
/// [`responses_body_spec`].
pub fn build_responses_body_json(
    model: &str,
    system_prompt: &str,
    user_prompt: &str,
    store: bool,
) -> (r: String)
    ensures
        r@ == responses_body_spec(model@, system_prompt@, user_prompt@, store),
{
    let mut s = "{\"model\":\"".to_owned();
    let em = json_escape(model);
    append_str(&mut s, em.as_str());
    append_str(&mut s, "\",\"input\":[{\"role\":\"system\",\"content\":\"");
    let es = json_escape(system_prompt);
    append_str(&mut s, es.as_str());
    append_str(&mut s, "\"},{\"role\":\"user\",\"content\":\"");
    let eu = json_escape(user_prompt);
    append_str(&mut s, eu.as_str());
    append_str(&mut s, "\"}],\"text\":{\"format\":{\"type\":\"json_object\"}},\"store\":");
    if store {
        append_str(&mut s, "true");
    } else {
        append_str(&mut s, "false");
    }
    append_str(&mut s, "}");
    assert(s@ =~= responses_body_spec(model@, system_prompt@, user_prompt@, store));
    s
}

/// How an optional exit code is rendered inside an error report.
pub open spec fn code_debug_spec(code: Option<i32>) -> Seq<char> {
    match code {
        Some(c) => "Some("@ + dec_str_of_i32(c) + ")"@,
        None => "None"@,
    }
}

/// The user-facing rendering of each provider error.
pub open spec fn format_api_error_spec(e: ScyApiError) -> Seq<char> {
    match e {
        ScyApiError::MissingApiKey => "API error: Missing API key.\nHint: set OPENAI_API_KEY or SCONNY_OPENAI_API_KEY environment variable."@,
        ScyApiError::CommandFailed { code, stdout, stderr } => "API error: curl/powershell command failed (code="@
            + code_debug_spec(code) + ").\n--- stdout ---\n"@ + stdout@ + "\n--- stderr ---\n"@
            + stderr@,
        ScyApiError::ParseFailed(m) => "API error: Parse failed: "@ + m@,
        ScyApiError::Io(m) => "API error: IO error: "@ + m@,
    }
}

/// Render a provider error for the user, per [`format_api_error_spec`].
pub fn format_api_error(e: ScyApiError) -> (r: String)
    ensures
        r@ == format_api_error_spec(e),
{
    match e {
        ScyApiError::MissingApiKey => {
            "API error: Missing API key.\nHint: set OPENAI_API_KEY or SCONNY_OPENAI_API_KEY environment variable.".to_owned()
        },
        ScyApiError::CommandFailed { code, stdout, stderr } => {
            let mut s = "API error: curl/powershell command failed (code=".to_owned();
            match code {
                Some(c) => {
                    append_str(&mut s, "Some(");
                    let d = i32_to_string(c);
                    append_str(&mut s, d.as_str());
                    append_str(&mut s, ")");
                },
                None => {
                    append_str(&mut s, "None");
                },
            }
            append_str(&mut s, ").\n--- stdout ---\n");
            append_str(&mut s, stdout.as_str());
            append_str(&mut s, "\n--- stderr ---\n");
            append_str(&mut s, stderr.as_str());
            assert(s@ =~= format_api_error_spec(
                ScyApiError::CommandFailed { code, stdout, stderr },
            ));
            s
        },
        ScyApiError::ParseFailed(m) => {
            let mut s = "API error: Parse failed: ".to_owned();
            append_str(&mut s, m.as_str());
            s
        },
        ScyApiError::Io(m) => {
            let mut s = "API error: IO error: ".to_owned();
            append_str(&mut s, m.as_str());
            s
        },
    }
}

} // verus!
