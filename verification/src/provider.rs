//! Provider-independent chat types and error classification.
use vstd::prelude::*;
use vstd::string::StringExecFns;
use crate::message::Message;
use crate::text::{chars_of, contains_chars, contains_seq, decimal, push_decimal};

verus! {

/// Token counts reported for one model call.
#[derive(Debug, Clone, Copy, PartialEq, Eq, Structural)]
pub struct TokenUsage {
    pub input: usize,
    pub output: usize,
}

impl TokenUsage {
    /// Input and output tokens together.
    pub fn total(&self) -> (r: usize)
        requires
            self.input + self.output <= usize::MAX,
        ensures
            r == self.input + self.output,
    {
        self.input + self.output
    }
}

/// What a model can do.
#[derive(Debug, Clone, Copy, PartialEq, Eq, Hash, Structural)]
pub enum ModelCapability {
    Text,
    Images,
    ToolUse,
    Thinking,
}

/// Failures of a chat provider.
#[derive(Debug, Clone, PartialEq, Eq)]
pub enum ProviderError {
    RateLimit { status_code: u16, message: String },
    Auth { status_code: u16, message: String },
    Network { message: String },
    ContextOverflow { message: String },
    Server { status_code: u16, message: String },
    Client { status_code: u16, message: String },
    Other { message: String },
}

/// Lower-case form of `s` as std's `str::to_lowercase` computes it.
pub uninterp spec fn lowercase(s: Seq<char>) -> Seq<char>;

/// The ASCII lower-case form of a character: `A` to `Z` become `a` to `z`,
/// any other character stays.
pub open spec fn ascii_lower(c: char) -> char {
    if 'A' <= c && c <= 'Z' {
        ((c as u32) + 32) as char
    } else {
        c
    }
}

/// Whether every character of `s` is ASCII.
pub open spec fn all_ascii(s: Seq<char>) -> bool {
    forall|i: int| 0 <= i < s.len() ==> (#[trigger] s[i] as u32) < 128
}

/// The lower-case form of a text: an ASCII text with `A` to `Z` lowered,
/// any other as std's `str::to_lowercase` gives it.
pub open spec fn lower_text(s: Seq<char>) -> Seq<char> {
    if all_ascii(s) {
        s.map_values(|c: char| ascii_lower(c))
    } else {
        lowercase(s)
    }
}

/// std's `str::to_lowercase`: the Unicode lower-case mapping of every
/// character. Its result is named; of an ASCII text it is the text with
/// `A` to `Z` lowered, character for character, as the documentation of
/// `char::to_lowercase` gives for ASCII characters.
#[verifier::external_body]
pub(crate) fn to_lowercase(s: &str) -> (r: String)
    ensures
        r@ == lowercase(s@),
        all_ascii(s@) ==> r@ == s@.map_values(|c: char| ascii_lower(c)),
{
    s.to_lowercase()
}

/// Whether an error text (already lower-cased) says the context was too long.
pub open spec fn mentions_context_overflow(lower: Seq<char>) -> bool {
    ||| contains_seq(lower, "context length"@)
    ||| contains_seq(lower, "context_length"@)
    ||| contains_seq(lower, "max tokens"@)
    ||| contains_seq(lower, "too many tokens"@)
}

/// How an HTTP error status and body are classified: 401 and 403 are
/// authentication errors, 429 is rate limiting, 500 to 504 are server errors,
/// other 4xx are client errors unless the body speaks of the context length,
/// and anything else is reported as is.
pub open spec fn classified(status: u16, body: Seq<char>, r: ProviderError) -> bool {
    if status == 401 || status == 403 {
        r matches ProviderError::Auth { status_code, message } && status_code == status && message@ == body
    } else if status == 429 {
        r matches ProviderError::RateLimit { status_code, message } && status_code == status && message@ == body
    } else if 500 <= status <= 504 {
        r matches ProviderError::Server { status_code, message } && status_code == status && message@ == body
    } else if 400 <= status <= 499 {
        if mentions_context_overflow(lower_text(body)) {
            r matches ProviderError::ContextOverflow { message } && message@ == body
        } else {
            r matches ProviderError::Client { status_code, message } && status_code == status && message@ == body
        }
    } else {
        r matches ProviderError::Other { message } && message@ == body
    }
}

/// Classifies a failed HTTP response by its status code and body.
pub fn classify_error(status: u16, body: String) -> (r: ProviderError)
    ensures
        classified(status, body@, r),
{
    if status == 401 || status == 403 {
        ProviderError::Auth { status_code: status, message: body }
    } else if status == 429 {
        ProviderError::RateLimit { status_code: status, message: body }
    } else if 500 <= status && status <= 504 {
        ProviderError::Server { status_code: status, message: body }
    } else if 400 <= status && status <= 499 {
        let lower = to_lowercase(body.as_str());
        let l = chars_of(lower.as_str());
        let overflow = contains_chars(l.as_slice(), chars_of("context length").as_slice())
            || contains_chars(l.as_slice(), chars_of("context_length").as_slice())
            || contains_chars(l.as_slice(), chars_of("max tokens").as_slice())
            || contains_chars(l.as_slice(), chars_of("too many tokens").as_slice());
        if overflow {
            ProviderError::ContextOverflow { message: body }
        } else {
            ProviderError::Client { status_code: status, message: body }
        }
    } else {
        ProviderError::Other { message: body }
    }
}

/// The display text of a provider error.
pub open spec fn provider_error_text(e: ProviderError) -> Seq<char> {
    match e {
        ProviderError::RateLimit { status_code, message } => "rate limit ("@ + decimal(
            status_code as nat,
        ) + "): "@ + message@,
        ProviderError::Auth { status_code, message } => "auth error ("@ + decimal(status_code as nat)
            + "): "@ + message@,
        ProviderError::Network { message } => "network error: "@ + message@,
        ProviderError::ContextOverflow { message } => "context overflow: "@ + message@,
        ProviderError::Server { status_code, message } => "server error ("@ + decimal(
            status_code as nat,
        ) + "): "@ + message@,
        ProviderError::Client { status_code, message } => "client error ("@ + decimal(
            status_code as nat,
        ) + "): "@ + message@,
        ProviderError::Other { message } => message@,
    }
}

fn status_text(prefix: &str, status_code: u16, message: &String) -> (r: String)
    ensures
        r@ == prefix@ + decimal(status_code as nat) + "): "@ + message@,
{
    let mut s = prefix.to_owned();
    push_decimal(&mut s, status_code as u64);
    s.append("): ");
    s.append(message.as_str());
    s
}

impl ProviderError {
    /// The display text of the error.
    pub fn to_text(&self) -> (r: String)
        ensures
            r@ == provider_error_text(*self),
    {
        match self {
            ProviderError::RateLimit { status_code, message } => status_text("rate limit (", *status_code, message),
            ProviderError::Auth { status_code, message } => status_text("auth error (", *status_code, message),
            ProviderError::Network { message } => {
                let mut s = "network error: ".to_owned();
                s.append(message.as_str());
                s
            },
            ProviderError::ContextOverflow { message } => {
                let mut s = "context overflow: ".to_owned();
                s.append(message.as_str());
                s
            },
            ProviderError::Server { status_code, message } => status_text("server error (", *status_code, message),
            ProviderError::Client { status_code, message } => status_text("client error (", *status_code, message),
            ProviderError::Other { message } => message.clone(),
        }
    }
}

/// Declaration of serde_json's JSON value, which a tool descriptor carries
/// as its parameter schema.
#[verifier::external_type_specification]
#[verifier::external_body]
pub struct ExJsonValue(serde_json::Value);

/// The compact JSON text serde_json writes for a value.
pub uninterp spec fn json_rendering(v: serde_json::Value) -> Seq<char>;

/// The compact JSON text of `v`, as serde_json's `Display` for `Value`
/// writes it. Only that the text is a function of the value is claimed.
#[verifier::external_body]
pub(crate) fn json_text(v: &serde_json::Value) -> (r: String)
    ensures
        r@ == json_rendering(*v),
{
    v.to_string()
}

/// Descriptor of a tool for the model: name, description and JSON schema of
/// its parameters.
#[derive(Debug)]
pub struct ToolDescriptor {
    pub name: String,
    pub description: String,
    pub parameters: serde_json::Value,
}

impl ToolDescriptor {
    pub fn new(name: &str, description: &str, parameters: serde_json::Value) -> (r: ToolDescriptor)
        ensures
            r.name@ == name@,
            r.description@ == description@,
            r.parameters == parameters,
    {
        ToolDescriptor { name: name.to_owned(), description: description.to_owned(), parameters }
    }
}

/// A request to a chat provider.
#[derive(Debug)]
pub struct ChatRequest {
    pub messages: Vec<Message>,
    pub tools: Vec<ToolDescriptor>,
    pub system_prompt: Option<String>,
}

/// A provider's answer: the assistant message, token usage and response id.
#[derive(Debug, Clone)]
pub struct ChatResponse {
    pub message: Message,
    pub usage: TokenUsage,
    pub id: String,
}

} // verus!
