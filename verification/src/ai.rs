//! The server's AI endpoints: the guard rails of the chat proxy, the reading of
//! API key files, and the polling of a text-to-3D generation task.
use vstd::prelude::*;
use crate::text::{concat, has_prefix, starts_with, trim, trimmed};

verus! {

/// The largest output a chat request may ask for.
pub const MAX_TOKENS_CAP: u64 = 8192;

/// The output bound used when a request names none.
pub const DEFAULT_MAX_TOKENS: u64 = 4096;

/// How many times a generation task is polled before giving up.
pub const MAX_POLLS: u32 = 60;

/// Seconds between two polls of a generation task.
pub const POLL_SECS: u64 = 3;

/// The secret held by a key file's contents: the contents without surrounding
/// white space, unless that is empty.
pub fn key_from_contents(raw: &str) -> (r: Option<String>)
    ensures
        trimmed(raw@).len() == 0 ==> r is None,
        trimmed(raw@).len() > 0 ==> (r matches Some(k) && k@ == trimmed(raw@)),
{
    let key = trim(raw);
    if key.unicode_len() == 0 {
        None
    } else {
        Some(key)
    }
}

/// Whether a chat request may keep the model it names: only GLM models may.
pub fn model_allowed(model: Option<&str>) -> (b: bool)
    ensures
        b == (model matches Some(m) && has_prefix(m@, "glm"@)),
{
    match model {
        Some(m) => starts_with(m, "glm"),
        None => false,
    }
}

/// The output bound sent upstream for a requested bound (0 when the request
/// names none): the default when none is named, else the request capped at
/// [`MAX_TOKENS_CAP`].
pub fn max_tokens_bound(requested: u64) -> (n: u64)
    ensures
        requested == 0 ==> n == DEFAULT_MAX_TOKENS,
        requested > 0 && requested <= MAX_TOKENS_CAP ==> n == requested,
        requested > MAX_TOKENS_CAP ==> n == MAX_TOKENS_CAP,
{
    if requested == 0 {
        DEFAULT_MAX_TOKENS
    } else if requested < MAX_TOKENS_CAP {
        requested
    } else {
        MAX_TOKENS_CAP
    }
}

/// Why a chat request is answered without reaching the upstream API.
#[derive(Debug, Clone, Copy, PartialEq, Eq, Structural)]
pub enum ChatRefusal {
    /// The server has no API key.
    NotConfigured,
    /// The body is not a JSON object.
    NotAnObject,
    /// The body has no `messages` array.
    NoMessages,
}

impl ChatRefusal {
    /// The HTTP status of the refusal.
    pub fn status(&self) -> (s: u16)
        ensures
            s == match *self {
                ChatRefusal::NotConfigured => 503u16,
                _ => 400u16,
            },
    {
        match self {
            ChatRefusal::NotConfigured => 503,
            _ => 400,
        }
    }

    /// The error message of the refusal.
    pub fn message(&self) -> (m: &'static str)
        ensures
            m@ == match *self {
                ChatRefusal::NotConfigured => "AI is not configured: put the GLM API key in ~/.GLM on the server."@,
                ChatRefusal::NotAnObject => "request body must be a JSON object"@,
                ChatRefusal::NoMessages => "request needs a `messages` array"@,
            },
    {
        match self {
            ChatRefusal::NotConfigured => "AI is not configured: put the GLM API key in ~/.GLM on the server.",
            ChatRefusal::NotAnObject => "request body must be a JSON object",
            ChatRefusal::NoMessages => "request needs a `messages` array",
        }
    }
}

/// How a chat request is forwarded.
#[derive(Debug, Clone)]
pub struct ChatPlan {
    /// The bearer token.
    pub key: String,
    /// Whether the request's model is replaced by the configured one.
    pub replace_model: bool,
    /// The output bound written into the request.
    pub max_tokens: u64,
    /// Whether the reply streams as server-sent events.
    pub streaming: bool,
}

/// Decides what becomes of a chat request, from the server's key and what the
/// body holds: its model, its output bound (0 when absent), whether it has a
/// `messages` array and its `stream` flag.
pub fn plan_chat(
    key: Option<String>,
    is_object: bool,
    model: Option<&str>,
    max_tokens: u64,
    has_messages: bool,
    stream: Option<bool>,
) -> (r: Result<ChatPlan, ChatRefusal>)
    ensures
        key is None ==> r == Err::<ChatPlan, ChatRefusal>(ChatRefusal::NotConfigured),
        key is Some && !is_object ==> r == Err::<ChatPlan, ChatRefusal>(ChatRefusal::NotAnObject),
        key is Some && is_object && !has_messages ==> r == Err::<ChatPlan, ChatRefusal>(ChatRefusal::NoMessages),
        key is Some && is_object && has_messages ==> (r matches Ok(p) && {
            &&& p.key == key->0
            &&& p.replace_model == !(model matches Some(m) && has_prefix(m@, "glm"@))
            &&& p.max_tokens == if max_tokens == 0 {
                DEFAULT_MAX_TOKENS
            } else if max_tokens <= MAX_TOKENS_CAP {
                max_tokens
            } else {
                MAX_TOKENS_CAP
            }
            &&& p.streaming == (stream == Some(true))
        }),
{
    let key = match key {
        Some(k) => k,
        None => {
            return Err(ChatRefusal::NotConfigured);
        },
    };
    if !is_object {
        return Err(ChatRefusal::NotAnObject);
    }
    let replace_model = !model_allowed(model);
    let bound = max_tokens_bound(max_tokens);
    if !has_messages {
        return Err(ChatRefusal::NoMessages);
    }
    let streaming = match stream {
        Some(s) => s,
        None => false,
    };
    Ok(ChatPlan { key, replace_model, max_tokens: bound, streaming })
}

/// How the upstream's answer is handed back.
#[derive(Debug, Clone, Copy, PartialEq, Eq, Structural)]
pub enum UpstreamReply {
    /// The event stream is passed through.
    Stream,
    /// The JSON body is passed through, with the upstream status.
    Json,
}

/// A successful (2xx) streaming answer is passed through as a stream; any
/// other answer as JSON.
pub fn upstream_reply(status: u16, streaming: bool) -> (r: UpstreamReply)
    ensures
        r == if 200 <= status < 300 && streaming {
            UpstreamReply::Stream
        } else {
            UpstreamReply::Json
        },
{
    if 200 <= status && status < 300 && streaming {
        UpstreamReply::Stream
    } else {
        UpstreamReply::Json
    }
}

/// What one poll of a generation task tells.
#[derive(Debug, Clone, PartialEq, Eq)]
pub enum PollStep {
    /// Done: the model can be downloaded from this URL.
    Ready(String),
    /// Done, but the output names no model.
    NoModelUrl,
    /// The task ended without a model; the message says how.
    Failed(String),
    /// Queued or running: poll again.
    Pending,
}

/// Whether a task status is final without a model.
pub open spec fn ended_badly(s: Seq<char>) -> bool {
    s == "failed"@ || s == "cancelled"@ || s == "banned"@ || s == "expired"@
}

/// The first of the output's model URLs: the PBR model, else the model, else
/// the base model.
pub open spec fn first_url(pbr: Option<&str>, model: Option<&str>, base: Option<&str>) -> Option<Seq<char>> {
    match pbr {
        Some(u) => Some(u@),
        None => match model {
            Some(u) => Some(u@),
            None => match base {
                Some(u) => Some(u@),
                None => None,
            },
        },
    }
}

/// Reads one poll of a generation task from its status and the model URLs of
/// its output.
pub fn poll_step(status: &str, pbr_model: Option<&str>, model: Option<&str>, base_model: Option<&str>) -> (r: PollStep)
    ensures
        status@ == "success"@ ==> match first_url(pbr_model, model, base_model) {
            Some(u) => r matches PollStep::Ready(x) && x@ == u,
            None => r == PollStep::NoModelUrl,
        },
        status@ != "success"@ && ended_badly(status@) ==> (r matches PollStep::Failed(m) && m@ == "Tripo generation "@
            + status@),
        status@ != "success"@ && !ended_badly(status@) ==> r == PollStep::Pending,
{
    let s = String::from_str(status);
    if s == String::from_str("success") {
        let url = match pbr_model {
            Some(u) => Some(u),
            None => match model {
                Some(u) => Some(u),
                None => base_model,
            },
        };
        return match url {
            Some(u) => PollStep::Ready(String::from_str(u)),
            None => PollStep::NoModelUrl,
        };
    }
    if s == String::from_str("failed") || s == String::from_str("cancelled") || s == String::from_str("banned") || s
        == String::from_str("expired") {
        return PollStep::Failed(concat("Tripo generation ", status));
    }
    PollStep::Pending
}

} // verus!
