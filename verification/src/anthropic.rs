//! The Anthropic wire format: request preparation and response decoding.
use vstd::prelude::*;
use vstd::string::StringExecFns;
use crate::message::{
    ContentPart, FunctionCall, Message, MessageView, PartView, Role, ToolCall, CallView, lemma_parts_view,
    part_view, parts_view,
};
use crate::context::views_of;
use crate::provider::{ChatRequest, ModelCapability, ToolDescriptor};
use crate::bus::{debug_str, debug_text};
use crate::text::{chars_of, decimal, join_with, push_char, push_decimal, string_of_sub};

verus! {

broadcast use vstd::string::group_string_axioms;

/// The texts of the text parts of a content list, concatenated.
pub open spec fn joined_text(content: Seq<PartView>) -> Seq<char>
    decreases content.len(),
{
    if content.len() == 0 {
        Seq::empty()
    } else {
        joined_text(content.drop_last()) + match content.last() {
            PartView::Text(t) => t,
            _ => Seq::empty(),
        }
    }
}

/// The non-empty texts of the system messages of `h`, in order.
pub open spec fn system_texts(h: Seq<MessageView>) -> Seq<Seq<char>>
    decreases h.len(),
{
    if h.len() == 0 {
        Seq::empty()
    } else {
        let m = h.last();
        let earlier = system_texts(h.drop_last());
        if m.role == Role::System && joined_text(m.content).len() > 0 {
            earlier.push(joined_text(m.content))
        } else {
            earlier
        }
    }
}

/// The messages of `h` that are not system messages, in order.
pub open spec fn non_system(h: Seq<MessageView>) -> Seq<MessageView>
    decreases h.len(),
{
    if h.len() == 0 {
        Seq::empty()
    } else {
        let m = h.last();
        if m.role == Role::System {
            non_system(h.drop_last())
        } else {
            non_system(h.drop_last()).push(m)
        }
    }
}

/// The concatenated text parts of a content list.
fn text_of_parts(content: &Vec<ContentPart>) -> (r: String)
    ensures
        r@ == joined_text(parts_view(content@)),
{
    let mut s = String::new();
    let mut i: usize = 0;
    proof {
        lemma_parts_view(content@);
    }
    while i < content.len()
        invariant
            i <= content@.len(),
            parts_view(content@).len() == content@.len(),
            forall|k: int| 0 <= k < content@.len() ==> #[trigger] parts_view(content@)[k] == content@[k]@,
            s@ == joined_text(parts_view(content@).take(i as int)),
        decreases content@.len() - i,
    {
        proof {
            let pv = parts_view(content@);
            assert(pv.take(i + 1).drop_last() =~= pv.take(i as int));
            assert(pv.take(i + 1).last() == content@[i as int]@);
        }
        match &content[i] {
            ContentPart::Text { text } => {
                s.append(text.as_str());
            },
            _ => {},
        }
        i = i + 1;
    }
    proof {
        assert(parts_view(content@).take(content@.len() as int) =~= parts_view(content@));
    }
    s
}

/// Splits a conversation into the system prompt (the non-empty texts of its
/// system messages joined by newlines, `None` when there is none) and the
/// remaining messages in order.
pub fn extract_system_messages(messages: Vec<Message>) -> (r: (Option<String>, Vec<Message>))
    ensures
        match r.0 {
            Some(s) => system_texts(views_of(messages@)).len() > 0 && s@ == join_with(
                system_texts(views_of(messages@)),
                "\n"@,
            ),
            None => system_texts(views_of(messages@)).len() == 0,
        },
        views_of(r.1@) == non_system(views_of(messages@)),
{
    let ghost msgs = messages@;
    let ghost all = views_of(messages@);
    let mut system = String::new();
    let mut count: usize = 0;
    let mut rest: Vec<Message> = Vec::new();
    let n = messages.len();
    for msg in it: messages
        invariant
            it.seq() == msgs,
            msgs.len() == n,
            all == views_of(msgs),
            count as nat == system_texts(all.take(it.index())).len(),
            count == 0 ==> system@.len() == 0,
            count > 0 ==> system@ == join_with(system_texts(all.take(it.index())), "\n"@),
            views_of(rest@) == non_system(all.take(it.index())),
            count <= it.index(),
    {
        let ghost idx = it.index();
        proof {
            assert(all.take(idx + 1).drop_last() =~= all.take(idx));
            assert(all.take(idx + 1).last() == msg@);
        }
        match msg.role {
            Role::System => {
                let text = text_of_parts(&msg.content);
                if !text.as_str().is_empty() {
                    let ghost before = system@;
                    let ghost texts = system_texts(all.take(idx));
                    proof {
                        assert(system_texts(all.take(idx + 1)) == texts.push(text@));
                    }
                    if count > 0 {
                        push_char(&mut system, '\n');
                        proof {
                            reveal_strlit("\n");
                            assert(texts.push(text@).drop_last() =~= texts);
                        }
                    }
                    system.append(text.as_str());
                    proof {
                        if count == 0 {
                            assert(texts.len() == 0);
                            assert(texts.push(text@)[0] == text@);
                            assert(system@ =~= text@);
                        } else {
                            assert(system@ =~= before + "\n"@ + text@);
                        }
                    }
                    count = count + 1;
                }
                assert(views_of(rest@) == non_system(all.take(idx + 1)));
            },
            _ => {
                let ghost m = msg;
                let ghost prev = rest@;
                rest.push(msg);
                proof {
                    assert(rest@ == prev.push(m));
                    assert(views_of(rest@) =~= views_of(prev).push(m@));
                }
            },
        }
    }
    proof {
        assert(all.take(msgs.len() as int) =~= all);
    }
    if count == 0 {
        (None, rest)
    } else {
        (Some(system), rest)
    }
}

/// A message as the Anthropic API takes it: a role name and flat text.
#[derive(Debug, Clone, PartialEq, Eq)]
pub struct AnthropicMessage {
    pub role: String,
    pub content: String,
}

/// The API role of a message: tool results are sent as user messages, and so
/// are system messages, which are normally taken out beforehand.
pub open spec fn wire_role(role: Role) -> Seq<char> {
    match role {
        Role::User => "user"@,
        Role::Assistant => "assistant"@,
        Role::Tool => "user"@,
        Role::System => "user"@,
    }
}

/// The text a content part contributes to the flat message text: its text,
/// or for a tool result the texts of its output; nothing for other parts.
pub open spec fn wire_part_text(p: PartView) -> Seq<char> {
    match p {
        PartView::Text(t) => t,
        PartView::Result { output, .. } => joined_text(output),
        _ => Seq::empty(),
    }
}

/// The flat text of a content list.
pub open spec fn wire_text(content: Seq<PartView>) -> Seq<char>
    decreases content.len(),
{
    if content.len() == 0 {
        Seq::empty()
    } else {
        wire_text(content.drop_last()) + wire_part_text(content.last())
    }
}

fn role_name(role: Role) -> (r: &'static str)
    ensures
        r@ == wire_role(role),
{
    match role {
        Role::User => "user",
        Role::Assistant => "assistant",
        Role::Tool => "user",
        Role::System => "user",
    }
}

impl AnthropicMessage {
    /// The wire form of a message.
    pub fn from_message(msg: Message) -> (r: AnthropicMessage)
        ensures
            r.role@ == wire_role(msg.role),
            r.content@ == wire_text(msg@.content),
    {
        let mut content = String::new();
        let mut i: usize = 0;
        let ghost pv = parts_view(msg.content@);
        proof {
            lemma_parts_view(msg.content@);
        }
        while i < msg.content.len()
            invariant
                i <= msg.content@.len(),
                pv == parts_view(msg.content@),
                pv.len() == msg.content@.len(),
                forall|k: int| 0 <= k < msg.content@.len() ==> #[trigger] pv[k] == msg.content@[k]@,
                content@ == wire_text(pv.take(i as int)),
            decreases msg.content@.len() - i,
        {
            proof {
                assert(pv.take(i + 1).drop_last() =~= pv.take(i as int));
                assert(pv.take(i + 1).last() == msg.content@[i as int]@);
            }
            match &msg.content[i] {
                ContentPart::Text { text } => {
                    content.append(text.as_str());
                },
                ContentPart::ToolResult { tool_result } => {
                    let t = text_of_parts(&tool_result.output);
                    content.append(t.as_str());
                },
                _ => {},
            }
            i = i + 1;
        }
        proof {
            assert(pv.take(msg.content@.len() as int) =~= pv);
        }
        AnthropicMessage { role: role_name(msg.role).to_owned(), content }
    }
}

/// A content block of an Anthropic response, with the tool input already
/// rendered as JSON text.
#[derive(Debug, Clone, PartialEq, Eq)]
pub struct ContentBlock {
    pub block_type: String,
    pub text: Option<String>,
    pub id: Option<String>,
    pub name: Option<String>,
    pub input_json: Option<String>,
}

/// The content part a block decodes to: a `"text"` block with text gives a
/// text part, a `"tool_use"` block with name and input gives a tool call (an
/// absent id reads as empty); any other block gives nothing.
pub open spec fn block_part(b: ContentBlock) -> Option<PartView> {
    if b.block_type@ == "text"@ && b.text is Some {
        Some(PartView::Text(b.text->0@))
    } else if b.block_type@ == "tool_use"@ && b.name is Some && b.input_json is Some {
        Some(PartView::Call(CallView {
            id: match b.id { Some(i) => i@, None => Seq::empty() },
            name: b.name->0@,
            arguments: b.input_json->0@,
        }))
    } else {
        None
    }
}

/// The parts decoded from a list of blocks, in order.
pub open spec fn blocks_parts(bs: Seq<ContentBlock>) -> Seq<PartView>
    decreases bs.len(),
{
    if bs.len() == 0 {
        Seq::empty()
    } else {
        match block_part(bs.last()) {
            Some(p) => blocks_parts(bs.drop_last()).push(p),
            None => blocks_parts(bs.drop_last()),
        }
    }
}

/// Decodes the content blocks of a response into content parts.
pub fn blocks_to_parts(blocks: Vec<ContentBlock>) -> (r: Vec<ContentPart>)
    ensures
        parts_view(r@) == blocks_parts(blocks@),
{
    let ghost bs = blocks@;
    let mut out: Vec<ContentPart> = Vec::new();
    let n = blocks.len();
    for b in it: blocks
        invariant
            it.seq() == bs,
            bs.len() == n,
            parts_view(out@) == blocks_parts(bs.take(it.index())),
    {
        let ghost idx = it.index();
        let ghost bv = b;
        proof {
            assert(bs.take(idx + 1).drop_last() =~= bs.take(idx));
            assert(bs.take(idx + 1).last() == bv);
        }
        let is_text = crate::text::str_eq(b.block_type.as_str(), "text");
        let is_tool = crate::text::str_eq(b.block_type.as_str(), "tool_use");
        let ContentBlock { block_type, text, id, name, input_json } = b;
        if is_text && text.is_some() {
            let p = ContentPart::Text { text: text.unwrap() };
            let ghost prev = out@;
            let ghost pv = p;
            out.push(p);
            proof {
                assert(out@.drop_last() == prev);
                assert(out@.last() == pv);
                assert(block_part(bv) == Some(part_view(pv)));
            }
        } else if is_tool && name.is_some() && input_json.is_some() {
            let id_text = match id {
                Some(i) => i,
                None => String::new(),
            };
            let p = ContentPart::ToolCall {
                tool_call: ToolCall {
                    id: id_text,
                    function: FunctionCall { name: name.unwrap(), arguments: input_json.unwrap() },
                },
            };
            let ghost prev = out@;
            let ghost pv = p;
            out.push(p);
            proof {
                assert(out@.drop_last() == prev);
                assert(out@.last() == pv);
                assert(block_part(bv) == Some(part_view(pv)));
            }
        } else {
            assert(block_part(bv) is None);
        }
    }
    proof {
        assert(bs.take(bs.len() as int) =~= bs);
    }
    out
}

/// The assistant message made of the decoded blocks of a response.
pub fn response_message(blocks: Vec<ContentBlock>) -> (r: Message)
    ensures
        r.role == Role::Assistant,
        r@.content == blocks_parts(blocks@),
        r.timestamp is Some,
{
    Message::new(Role::Assistant, blocks_to_parts(blocks))
}

/// `s` without the `/` characters at its end.
pub open spec fn trim_trailing_slashes(s: Seq<char>) -> Seq<char>
    decreases s.len(),
{
    if s.len() > 0 && s.last() == '/' {
        trim_trailing_slashes(s.drop_last())
    } else {
        s
    }
}

/// The messages endpoint under a base URL, written with exactly one `/`
/// between them however many the base URL ends with.
pub fn messages_url(base_url: &str) -> (r: String)
    ensures
        r@ == trim_trailing_slashes(base_url@) + "/messages"@,
{
    let cs = chars_of(base_url);
    let mut end: usize = cs.len();
    assert(cs@.take(cs@.len() as int) =~= cs@);
    while end > 0 && cs[end - 1] == '/'
        invariant
            end <= cs@.len(),
            trim_trailing_slashes(cs@) == trim_trailing_slashes(cs@.take(end as int)),
        decreases end,
    {
        proof {
            assert(cs@.take(end as int).drop_last() =~= cs@.take(end - 1));
        }
        end = end - 1;
    }
    proof {
        assert(trim_trailing_slashes(cs@.take(end as int)) == cs@.take(end as int));
        assert(cs@.take(end as int) =~= cs@.subrange(0, end as int));
    }
    let mut r = string_of_sub(cs.as_slice(), 0, end);
    r.append("/messages");
    r
}

/// What the Anthropic models are offered as able to do: text, tool use and
/// thinking.
pub fn anthropic_capabilities() -> (r: Vec<ModelCapability>)
    ensures
        r@ == seq![ModelCapability::Text, ModelCapability::ToolUse, ModelCapability::Thinking],
{
    let mut v = Vec::new();
    v.push(ModelCapability::Text);
    v.push(ModelCapability::ToolUse);
    v.push(ModelCapability::Thinking);
    v
}

/// Why a provider could not be built.
#[derive(Debug, Clone, PartialEq, Eq)]
pub enum BuildError {
    /// The HTTP client could not be built; the text says why.
    InvalidClient(String),
}

impl BuildError {
    /// The display text of the error.
    pub fn to_text(&self) -> (r: String)
        ensures
            r@ == match *self {
                BuildError::InvalidClient(m) => "failed to build HTTP client: "@ + m@,
            },
    {
        match self {
            BuildError::InvalidClient(m) => {
                let mut s = "failed to build HTTP client: ".to_string();
                s.append(m.as_str());
                s
            },
        }
    }
}

/// Declaration of reqwest's asynchronous HTTP client, which the provider
/// carries for the application to send requests with.
#[verifier::external_type_specification]
#[verifier::external_body]
pub struct ExHttpClient(reqwest::Client);

/// Builds the reqwest client the provider sends requests with: default
/// `content-type` and `anthropic-version` headers and a timeout. Success
/// depends on the machine (TLS) and on valid header values, so nothing is
/// claimed of the outcome; a failure is given as reqwest's error text.
#[verifier::external_body]
fn build_http_client(content_type: &str, api_version: &str, timeout_secs: u64) -> (r: Result<reqwest::Client, String>)
{
    let mut headers = reqwest::header::HeaderMap::new();
    let ct = reqwest::header::HeaderValue::from_str(content_type).map_err(|e| e.to_string())?;
    headers.insert(reqwest::header::CONTENT_TYPE, ct);
    headers.insert("anthropic-version", api_version.parse().map_err(|_| "invalid header value".to_string())?);
    let timeout = std::time::Duration::from_secs(timeout_secs);
    reqwest::Client::builder().default_headers(headers).timeout(timeout).build().map_err(|e| e.to_string())
}

/// How long a request may take, in seconds.
pub const REQUEST_TIMEOUT_SECS: u64 = 60;

/// The debug text of a provider with the given model, base URL and reply
/// limit; its API key is shown as `[REDACTED]`.
pub open spec fn provider_debug_text(model: Seq<char>, base: Seq<char>, limit: usize) -> Seq<char> {
    "AnthropicProvider { model: "@ + debug_text(model) + ", base_url: "@ + debug_text(base)
        + ", api_key: \"[REDACTED]\", max_tokens: "@ + decimal(limit as nat) + " }"@
}

/// The debug text never shows the API key: two providers that differ only
/// in their keys have the same debug text.
pub proof fn law_debug_text_hides_key(p1: AnthropicProvider, p2: AnthropicProvider)
    requires
        p1.model() == p2.model(),
        p1.base() == p2.base(),
        p1.token_limit() == p2.token_limit(),
    ensures
        provider_debug_text(p1.model(), p1.base(), p1.token_limit()) == provider_debug_text(
            p2.model(),
            p2.base(),
            p2.token_limit(),
        ),
{
}

/// The API's default base URL.
pub open spec fn default_base_url() -> Seq<char> {
    "https://api.anthropic.com/v1"@
}

/// The largest context the models take, in tokens.
pub const MAX_CONTEXT_SIZE: usize = 200000;

/// The Anthropic API provider. The API key is kept in memory and left out
/// of its debug text.
pub struct AnthropicProvider {
    client: reqwest::Client,
    api_key: String,
    model: String,
    base_url: String,
    max_tokens: usize,
}

impl AnthropicProvider {
    /// The API key.
    pub closed spec fn key(&self) -> Seq<char> {
        self.api_key@
    }

    /// The model requests go to.
    pub closed spec fn model(&self) -> Seq<char> {
        self.model@
    }

    /// The base URL of the API.
    pub closed spec fn base(&self) -> Seq<char> {
        self.base_url@
    }

    /// The most tokens a reply may have.
    pub closed spec fn token_limit(&self) -> usize {
        self.max_tokens
    }

    /// A provider with the given API key and model, the default base URL,
    /// and replies of at most 4096 tokens, built around `client`, the
    /// outcome of building the HTTP client: its error text is reported as an
    /// invalid client.
    pub fn from_client(client: Result<reqwest::Client, String>, api_key: &str, model: &str) -> (r: Result<
        AnthropicProvider,
        BuildError,
    >)
        ensures
            match client {
                Ok(c) => r matches Ok(p) && p.http_client() == c && p.key() == api_key@ && p.model()
                    == model@ && p.base() == default_base_url() && p.token_limit() == 4096,
                Err(m) => r == Err::<AnthropicProvider, BuildError>(BuildError::InvalidClient(m)),
            },
    {
        match client {
            Ok(client) => Ok(AnthropicProvider {
                client,
                api_key: api_key.to_string(),
                model: model.to_string(),
                base_url: "https://api.anthropic.com/v1".to_string(),
                max_tokens: 4096,
            }),
            Err(message) => Err(BuildError::InvalidClient(message)),
        }
    }

    /// A provider with the given API key and model, the default base URL,
    /// and replies of at most 4096 tokens; an error when the HTTP client
    /// cannot be built. Whether it can is up to the machine (see
    /// `build_http_client`); `from_client` says what follows from each
    /// outcome.
    pub fn new(api_key: &str, model: &str) -> (r: Result<AnthropicProvider, BuildError>)
        ensures
            match r {
                Ok(p) => p.key() == api_key@ && p.model() == model@ && p.base() == default_base_url()
                    && p.token_limit() == 4096,
                Err(e) => e is InvalidClient,
            },
    {
        // JSON requests to version 2023-06-01 of the API
        let client = build_http_client("application/json", "2023-06-01", REQUEST_TIMEOUT_SECS);
        Self::from_client(client, api_key, model)
    }

    /// The same provider using another model.
    pub fn with_model(self, model: &str) -> (r: AnthropicProvider)
        ensures
            r.model() == model@,
            r.http_client() == self.http_client(),
            r.key() == self.key(),
            r.base() == self.base(),
            r.token_limit() == self.token_limit(),
    {
        AnthropicProvider { model: model.to_string(), ..self }
    }

    /// The same provider with another reply limit.
    pub fn with_max_tokens(self, max_tokens: usize) -> (r: AnthropicProvider)
        ensures
            r.token_limit() == max_tokens,
            r.http_client() == self.http_client(),
            r.key() == self.key(),
            r.model() == self.model(),
            r.base() == self.base(),
    {
        AnthropicProvider { max_tokens, ..self }
    }

    /// The same provider with another base URL.
    pub fn with_base_url(self, base_url: &str) -> (r: AnthropicProvider)
        ensures
            r.base() == base_url@,
            r.http_client() == self.http_client(),
            r.key() == self.key(),
            r.model() == self.model(),
            r.token_limit() == self.token_limit(),
    {
        AnthropicProvider { base_url: base_url.to_string(), ..self }
    }

    /// The model requests go to.
    pub fn model_name(&self) -> (r: &str)
        ensures
            r@ == self.model(),
    {
        self.model.as_str()
    }

    /// The base URL of the API.
    pub fn base_url(&self) -> (r: &str)
        ensures
            r@ == self.base(),
    {
        self.base_url.as_str()
    }

    /// The API key, for the authorization header.
    pub fn api_key(&self) -> (r: &str)
        ensures
            r@ == self.key(),
    {
        self.api_key.as_str()
    }

    /// The HTTP client the provider was built with.
    pub closed spec fn http_client(&self) -> reqwest::Client {
        self.client
    }

    /// The HTTP client requests are sent with.
    pub fn client(&self) -> (r: &reqwest::Client)
        ensures
            *r == self.http_client(),
    {
        &self.client
    }

    /// The endpoint requests are sent to.
    pub fn endpoint(&self) -> (r: String)
        ensures
            r@ == trim_trailing_slashes(self.base()) + "/messages"@,
    {
        messages_url(self.base_url.as_str())
    }

    /// The largest context the models take, in tokens.
    pub fn max_context_size(&self) -> (r: usize)
        ensures
            r == 200000,
    {
        MAX_CONTEXT_SIZE
    }

    /// What the models can do: text, tool use and thinking.
    pub fn capabilities(&self) -> (r: Vec<ModelCapability>)
        ensures
            r@ == seq![ModelCapability::Text, ModelCapability::ToolUse, ModelCapability::Thinking],
    {
        anthropic_capabilities()
    }

    /// The thinking effort asked for: none.
    pub fn thinking_effort(&self) -> (r: Option<&str>)
        ensures
            r is None,
    {
        None
    }

    /// The debug text of the provider: its model, base URL and reply limit,
    /// with the API key shown as `[REDACTED]`.
    pub fn debug_text(&self) -> (r: String)
        ensures
            r@ == provider_debug_text(self.model(), self.base(), self.token_limit()),
    {
        let mut s = "AnthropicProvider { model: ".to_string();
        s.append(debug_str(self.model.as_str()).as_str());
        s.append(", base_url: ");
        s.append(debug_str(self.base_url.as_str()).as_str());
        s.append(", api_key: \"[REDACTED]\", max_tokens: ");
        push_decimal(&mut s, self.max_tokens as u64);
        s.append(" }");
        s
    }

    /// The body of a request to the API: the provider's model and reply
    /// limit; as system prompt the texts of the conversation's system
    /// messages, or else the request's own system prompt; the other
    /// messages in wire form, in order; and the tools, left out when there
    /// are none.
    pub fn build_request(&self, request: ChatRequest) -> (r: AnthropicRequest)
        ensures
            r.model@ == self.model(),
            r.max_tokens == self.token_limit(),
            match r.system {
                Some(s) => if system_texts(views_of(request.messages@)).len() > 0 {
                    s@ == join_with(system_texts(views_of(request.messages@)), "\n"@)
                } else {
                    request.system_prompt matches Some(p) && s@ == p@
                },
                None => system_texts(views_of(request.messages@)).len() == 0 && request.system_prompt is None,
            },
            r.messages@.len() == non_system(views_of(request.messages@)).len(),
            forall|i: int| 0 <= i < r.messages@.len() ==> (#[trigger] r.messages@[i]).role@ == wire_role(
                non_system(views_of(request.messages@))[i].role,
            ) && r.messages@[i].content@ == wire_text(non_system(views_of(request.messages@))[i].content),
            match r.tools {
                Some(ts) => request.tools@.len() > 0 && ts@.len() == request.tools@.len() && forall|i: int|
                    0 <= i < ts@.len() ==> (#[trigger] ts@[i]).name@ == request.tools@[i].name@
                        && ts@[i].description@ == request.tools@[i].description@ && ts@[i].input_schema
                        == request.tools@[i].parameters,
                None => request.tools@.len() == 0,
            },
    {
        let ChatRequest { messages, tools, system_prompt } = request;
        let (extracted, rest) = extract_system_messages(messages);
        let system = match extracted {
            Some(s) => Some(s),
            None => system_prompt,
        };
        let ghost rest_views = views_of(rest@);
        let mut wire: Vec<AnthropicMessage> = Vec::new();
        let n = rest.len();
        for msg in it: rest
            invariant
                it.seq().len() == n,
                rest_views == views_of(it.seq()),
                wire@.len() == it.index(),
                forall|i: int| 0 <= i < wire@.len() ==> (#[trigger] wire@[i]).role@ == wire_role(rest_views[i].role)
                    && wire@[i].content@ == wire_text(rest_views[i].content),
        {
            proof {
                assert(rest_views[it.index() as int] == msg@);
            }
            wire.push(AnthropicMessage::from_message(msg));
        }
        let tool_count = tools.len();
        let ghost given = tools@;
        let mut out: Vec<AnthropicTool> = Vec::new();
        for t in it: tools
            invariant
                it.seq() == given,
                out@.len() == it.index(),
                forall|i: int| 0 <= i < out@.len() ==> (#[trigger] out@[i]).name@ == given[i].name@
                    && out@[i].description@ == given[i].description@ && out@[i].input_schema == given[i].parameters,
        {
            let ToolDescriptor { name, description, parameters } = t;
            out.push(AnthropicTool { name, description, input_schema: parameters });
        }
        let tools = if tool_count == 0 {
            None
        } else {
            Some(out)
        };
        AnthropicRequest { model: self.model.clone(), max_tokens: self.max_tokens, system, messages: wire, tools }
    }
}

/// A tool as the Anthropic API takes it.
#[derive(Debug)]
pub struct AnthropicTool {
    pub name: String,
    pub description: String,
    pub input_schema: serde_json::Value,
}

/// The body of a request to the Anthropic API.
#[derive(Debug)]
pub struct AnthropicRequest {
    pub model: String,
    pub max_tokens: usize,
    pub system: Option<String>,
    pub messages: Vec<AnthropicMessage>,
    pub tools: Option<Vec<AnthropicTool>>,
}

} // verus!
