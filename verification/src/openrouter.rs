//! Data model of the OpenAI-compatible backend API (OpenRouter or Ollama), and
//! the normalisation a client applies to its configuration.
use crate::text::{
    decode_lossy, push_str_chars, utf8_lossy, is_trim_empty, str_chars, string_from_chars, strip_trailing, strip_trailing_chars, trim,
    trim_chars, trim_str,
};
use vstd::prelude::*;

verus! {

pub const DEFAULT_BASE_URL: &'static str = "https://openrouter.ai/api/v1";

#[derive(Debug)]
pub struct Message {
    pub role: String,
    pub content: String,
}

impl Clone for Message {
    fn clone(&self) -> (r: Self)
        ensures
            r == *self,
    {
        Message { role: self.role.clone(), content: self.content.clone() }
    }
}

/// Connection settings of a backend client.
#[derive(Debug)]
pub struct Config {
    pub api_key: String,
    pub base_url: String,
    pub http_referer: String,
    pub x_title: String,
}

#[derive(Debug)]
pub struct ChatChoice {
    pub index: i64,
    pub message: Message,
    pub finish_reason: Option<String>,
}

#[derive(Debug)]
pub struct Usage {
    pub prompt_tokens: Option<i64>,
    pub completion_tokens: Option<i64>,
    pub total_tokens: Option<i64>,
}

#[derive(Debug)]
pub struct ChatCompletionResponse {
    pub id: String,
    pub object: String,
    pub created: i64,
    pub model: String,
    pub choices: Vec<ChatChoice>,
    pub usage: Option<Usage>,
}

#[derive(Debug)]
pub struct Pricing {
    pub prompt: String,
    pub completion: String,
    pub request: String,
    pub image: String,
    pub input_cache_read: String,
    pub input_cache_write: String,
}

#[derive(Debug)]
pub struct Model {
    pub id: String,
    pub name: String,
    pub description: String,
    pub context_length: i64,
    pub pricing: Pricing,
}

#[derive(Debug)]
pub struct ModelsResponse {
    pub data: Vec<Model>,
}

#[derive(Debug)]
pub struct RateLimit {
    pub requests: i64,
    pub interval: i64,
}

#[derive(Debug)]
pub struct OpenAiError {
    pub message: String,
    pub error_type: String,
    pub code: String,
}

#[derive(Debug)]
pub struct OpenAiErrorEnvelope {
    pub error: OpenAiError,
}

/// A failed backend call: the HTTP status (when the backend answered) and
/// what its error envelope said.
#[derive(Debug)]
pub struct HttpError {
    pub status: Option<u16>,
    pub message: String,
    pub error_type: String,
    pub code: String,
    pub body: String,
    pub transport: Option<String>,
}

impl HttpError {
    /// A request the client refused to send.
    pub fn client(msg: &str) -> (e: Self)
        ensures
            e.status is None,
            e.message@ == msg@,
            e.error_type@.len() == 0,
            e.code@.len() == 0,
            e.body@.len() == 0,
            e.transport is None,
    {
        HttpError {
            status: None,
            message: String::from_str(msg),
            error_type: String::new(),
            code: String::new(),
            body: String::new(),
            transport: None,
        }
    }

    /// A failure of the transport, with its description.
    pub fn transport(detail: &str) -> (e: Self)
        ensures
            e.status is None,
            e.message@ == "transport error"@,
            e.body@.len() == 0,
            (e.transport matches Some(t) && t@ == detail@),
    {
        HttpError {
            status: None,
            message: String::from_str("transport error"),
            error_type: String::new(),
            code: String::new(),
            body: String::new(),
            transport: Some(String::from_str(detail)),
        }
    }

    /// An answer whose body could not be decoded.
    pub fn parse(detail: &str, body: &[u8]) -> (e: Self)
        ensures
            e.status is None,
            e.message@ == "parse error"@,
            e.body@ == trim(utf8_lossy(body@)),
            (e.transport matches Some(t) && t@ == detail@),
    {
        HttpError {
            status: None,
            message: String::from_str("parse error"),
            error_type: String::new(),
            code: String::new(),
            body: trim_str(decode_lossy(body).as_str()),
            transport: Some(String::from_str(detail)),
        }
    }

    /// An error answer with status `status`; `envelope` is the decoded error
    /// envelope of the body, when it decoded.
    pub fn from_api(status: u16, body: &[u8], envelope: Option<OpenAiErrorEnvelope>) -> (e: Self)
        ensures
            e.status == Some(status),
            e.body@ == trim(utf8_lossy(body@)),
            e.transport is None,
            (match envelope {
                Some(env) => if trim(env.error.message@).len() != 0 {
                    e.message == env.error.message && e.error_type == env.error.error_type && e.code
                        == env.error.code
                } else {
                    e.message@.len() == 0 && e.error_type@.len() == 0 && e.code@.len() == 0
                },
                None => e.message@.len() == 0 && e.error_type@.len() == 0 && e.code@.len() == 0,
            }),
    {
        let bs = trim_str(decode_lossy(body).as_str());
        match envelope {
            Some(env) => {
                if !is_trim_empty(env.error.message.as_str()) {
                    return HttpError {
                        status: Some(status),
                        message: env.error.message,
                        error_type: env.error.error_type,
                        code: env.error.code,
                        body: bs,
                        transport: None,
                    };
                }
            },
            None => {},
        }
        HttpError {
            status: Some(status),
            message: String::new(),
            error_type: String::new(),
            code: String::new(),
            body: bs,
            transport: None,
        }
    }
}

/// `skip_serializing_if` predicate for the `stream` flag.
pub fn is_false(b: &bool) -> (r: bool)
    ensures
        r == !*b,
{
    !*b
}

/// The base URL a client uses: trimmed, without trailing slashes, the
/// OpenRouter default when empty.
pub open spec fn spec_client_base_url(base: Seq<char>) -> Seq<char> {
    let b = strip_trailing(trim(base), '/');
    if b.len() == 0 {
        DEFAULT_BASE_URL@
    } else {
        b
    }
}

/// The configuration a client runs with: key, referer and title trimmed, and
/// the base URL normalised by `spec_client_base_url`.
pub fn normalize_client_config(cfg: &Config) -> (r: Config)
    ensures
        r.api_key@ == trim(cfg.api_key@),
        r.base_url@ == spec_client_base_url(cfg.base_url@),
        r.http_referer@ == trim(cfg.http_referer@),
        r.x_title@ == trim(cfg.x_title@),
{
    let b0 = trim_chars(cfg.base_url.as_str());
    let b = strip_trailing_chars(b0.as_slice(), '/');
    let base_url = if b.len() == 0 {
        String::from_str(DEFAULT_BASE_URL)
    } else {
        string_from_chars(b.as_slice())
    };
    Config {
        api_key: trim_str(cfg.api_key.as_str()),
        base_url,
        http_referer: trim_str(cfg.http_referer.as_str()),
        x_title: trim_str(cfg.x_title.as_str()),
    }
}

/// Why a completion request is not sent: a blank model, or no messages.
pub open spec fn completion_problem_of(model: Seq<char>, message_count: nat) -> Option<Seq<char>> {
    if trim(model).len() == 0 {
        Some("openrouter: missing model"@)
    } else if message_count == 0 {
        Some("openrouter: missing messages"@)
    } else {
        None
    }
}

/// The refusal of a completion request before it is sent, if any.
pub fn check_completion_request(model: &str, message_count: usize) -> (r: Option<HttpError>)
    ensures
        match r {
            Some(e) => completion_problem_of(model@, message_count as nat) == Some(e.message@)
                && e.status is None,
            None => completion_problem_of(model@, message_count as nat) is None,
        },
{
    if is_trim_empty(model) {
        Some(HttpError::client("openrouter: missing model"))
    } else if message_count == 0 {
        Some(HttpError::client("openrouter: missing messages"))
    } else {
        None
    }
}

/// The refusal of an embedding request before it is sent, if any.
pub fn check_embedding_request(model: &str, input_count: usize) -> (r: Option<HttpError>)
    ensures
        match r {
            Some(e) => e.status is None && (if trim(model@).len() == 0 {
                e.message@ == "openrouter: missing model"@
            } else {
                input_count == 0 && e.message@ == "openrouter: missing input"@
            }),
            None => trim(model@).len() > 0 && input_count > 0,
        },
{
    if is_trim_empty(model) {
        Some(HttpError::client("openrouter: missing model"))
    } else if input_count == 0 {
        Some(HttpError::client("openrouter: missing input"))
    } else {
        None
    }
}

/// The address of an API path under the client's base URL.
pub fn api_url(base_url: &str, path: &str) -> (r: String)
    ensures
        r@ == base_url@ + seq!['/'] + path@,
{
    let mut v = str_chars(base_url);
    v.push('/');
    push_str_chars(&mut v, path);
    string_from_chars(v.as_slice())
}

/// The headers every request carries: JSON accepted, the key as a bearer
/// token, and the attribution headers, each only when set.
pub open spec fn auth_headers_of(cfg: Config) -> Seq<(Seq<char>, Seq<char>)> {
    let h0 = seq![("Accept"@, "application/json"@)];
    let h1 = if cfg.api_key@.len() > 0 {
        h0.push(("Authorization"@, "Bearer "@ + cfg.api_key@))
    } else {
        h0
    };
    let h2 = if cfg.http_referer@.len() > 0 {
        h1.push(("HTTP-Referer"@, cfg.http_referer@))
    } else {
        h1
    };
    if cfg.x_title@.len() > 0 {
        h2.push(("X-Title"@, cfg.x_title@))
    } else {
        h2
    }
}

fn header(name: &str, value: &str) -> (r: (String, String))
    ensures
        r.0@ == name@,
        r.1@ == value@,
{
    (String::from_str(name), String::from_str(value))
}

pub fn auth_headers(cfg: &Config) -> (r: Vec<(String, String)>)
    ensures
        r@.map_values(|h: (String, String)| (h.0@, h.1@)) == auth_headers_of(*cfg),
{
    let mut out: Vec<(String, String)> = Vec::new();
    out.push(header("Accept", "application/json"));
    if cfg.api_key.unicode_len() > 0 {
        let mut v = str_chars("Bearer ");
        push_str_chars(&mut v, cfg.api_key.as_str());
        let value = string_from_chars(v.as_slice());
        out.push((String::from_str("Authorization"), value));
    }
    if cfg.http_referer.unicode_len() > 0 {
        out.push(header("HTTP-Referer", cfg.http_referer.as_str()));
    }
    if cfg.x_title.unicode_len() > 0 {
        out.push(header("X-Title", cfg.x_title.as_str()));
    }
    proof {
        assert(out@.map_values(|h: (String, String)| (h.0@, h.1@)) =~= auth_headers_of(*cfg));
    }
    out
}

} // verus!
