//! The conversation model: roles, content parts and messages.
use vstd::prelude::*;
use crate::clock::now_micros;

verus! {

/// Who produced a message.
#[derive(Debug, Clone, Copy, PartialEq, Eq, Structural)]
pub enum Role {
    User,
    Assistant,
    System,
    Tool,
}

/// Optional provenance information attached to a message.
#[derive(Debug, PartialEq, Eq, Default)]
pub struct MessageMetadata {
    pub source: Option<String>,
}

/// The name and JSON-encoded arguments of a requested function call.
#[derive(Debug, PartialEq, Eq)]
pub struct FunctionCall {
    pub name: String,
    pub arguments: String,
}

/// A tool invocation requested by the model.
#[derive(Debug, PartialEq, Eq)]
pub struct ToolCall {
    pub id: String,
    pub function: FunctionCall,
}

/// The outcome of a tool call, as fed back to the model.
#[derive(Debug, PartialEq, Eq)]
pub struct ToolResultPart {
    pub tool_call_id: String,
    pub output: Vec<ContentPart>,
    pub is_error: bool,
}

/// One piece of a message's content.
#[derive(Debug, PartialEq, Eq)]
pub enum ContentPart {
    Text { text: String },
    Image { url: String },
    ToolCall { tool_call: ToolCall },
    ToolResult { tool_result: ToolResultPart },
}

/// A message of the conversation. `timestamp` is in microseconds since the
/// Unix epoch.
#[derive(Debug, PartialEq, Eq)]
pub struct Message {
    pub role: Role,
    pub content: Vec<ContentPart>,
    pub timestamp: Option<i64>,
    pub metadata: MessageMetadata,
}

/// The abstract value of a function call.
pub struct CallView {
    pub id: Seq<char>,
    pub name: Seq<char>,
    pub arguments: Seq<char>,
}

/// The abstract value of a content part.
pub enum PartView {
    Text(Seq<char>),
    Image(Seq<char>),
    Call(CallView),
    Result { tool_call_id: Seq<char>, output: Seq<PartView>, is_error: bool },
}

/// The abstract value of a message.
pub struct MessageView {
    pub role: Role,
    pub content: Seq<PartView>,
    pub timestamp: Option<i64>,
    pub source: Option<Seq<char>>,
}

pub open spec fn call_view(c: ToolCall) -> CallView {
    CallView { id: c.id@, name: c.function.name@, arguments: c.function.arguments@ }
}

pub open spec fn part_view(p: ContentPart) -> PartView
    decreases p, 1int,
{
    match p {
        ContentPart::Text { text } => PartView::Text(text@),
        ContentPart::Image { url } => PartView::Image(url@),
        ContentPart::ToolCall { tool_call } => PartView::Call(call_view(tool_call)),
        ContentPart::ToolResult { tool_result } => PartView::Result {
            tool_call_id: tool_result.tool_call_id@,
            output: parts_view(tool_result.output@),
            is_error: tool_result.is_error,
        },
    }
}

pub open spec fn parts_view(s: Seq<ContentPart>) -> Seq<PartView>
    decreases s, 0int,
{
    if s.len() == 0 {
        Seq::empty()
    } else {
        parts_view(s.drop_last()).push(part_view(s.last()))
    }
}

/// `parts_view` is the pointwise view.
pub proof fn lemma_parts_view(s: Seq<ContentPart>)
    ensures
        parts_view(s).len() == s.len(),
        forall|i: int| 0 <= i < s.len() ==> #[trigger] parts_view(s)[i] == part_view(s[i]),
    decreases s.len(),
{
    if s.len() > 0 {
        lemma_parts_view(s.drop_last());
    }
}

/// Two content lists whose parts have pointwise equal views have equal views.
pub proof fn lemma_parts_view_pointwise(a: Seq<ContentPart>, b: Seq<ContentPart>)
    requires
        a.len() == b.len(),
        forall|i: int| 0 <= i < a.len() ==> part_view(#[trigger] a[i]) == part_view(b[i]),
    ensures
        parts_view(a) == parts_view(b),
{
    lemma_parts_view(a);
    lemma_parts_view(b);
    assert(parts_view(a) =~= parts_view(b));
}

impl View for ToolCall {
    type V = CallView;

    open spec fn view(&self) -> CallView {
        call_view(*self)
    }
}

impl View for ContentPart {
    type V = PartView;

    open spec fn view(&self) -> PartView {
        part_view(*self)
    }
}

impl View for Message {
    type V = MessageView;

    open spec fn view(&self) -> MessageView {
        MessageView {
            role: self.role,
            content: parts_view(self.content@),
            timestamp: self.timestamp,
            source: match self.metadata.source {
                Some(s) => Some(s@),
                None => None,
            },
        }
    }
}

/// The text of a part, when it is a text part.
pub open spec fn part_text(p: PartView) -> Option<Seq<char>> {
    match p {
        PartView::Text(t) => Some(t),
        _ => None,
    }
}

/// A content list holding exactly one text part with the given text.
pub open spec fn single_text(content: Seq<PartView>, text: Seq<char>) -> bool {
    &&& content.len() == 1
    &&& content[0] == PartView::Text(text)
}

impl Clone for FunctionCall {
    fn clone(&self) -> (r: Self)
        ensures
            r.name@ == self.name@,
            r.arguments@ == self.arguments@,
    {
        FunctionCall { name: self.name.clone(), arguments: self.arguments.clone() }
    }
}

impl Clone for ToolCall {
    fn clone(&self) -> (r: Self)
        ensures
            r@ == self@,
    {
        ToolCall { id: self.id.clone(), function: self.function.clone() }
    }
}

impl Clone for MessageMetadata {
    fn clone(&self) -> (r: Self)
        ensures
            r == *self,
    {
        let source = match &self.source {
            Some(s) => Some(s.clone()),
            None => None,
        };
        MessageMetadata { source }
    }
}

/// A copy of a content part.
pub fn copy_part(p: &ContentPart) -> (r: ContentPart)
    ensures
        r@ == p@,
    decreases p, 1int,
{
    match p {
        ContentPart::Text { text } => ContentPart::Text { text: text.clone() },
        ContentPart::Image { url } => ContentPart::Image { url: url.clone() },
        ContentPart::ToolCall { tool_call } => ContentPart::ToolCall { tool_call: tool_call.clone() },
        ContentPart::ToolResult { tool_result } => {
            let output = copy_parts(&tool_result.output);
            ContentPart::ToolResult {
                tool_result: ToolResultPart {
                    tool_call_id: tool_result.tool_call_id.clone(),
                    output,
                    is_error: tool_result.is_error,
                },
            }
        },
    }
}

/// A copy of a list of content parts.
pub fn copy_parts(v: &Vec<ContentPart>) -> (r: Vec<ContentPart>)
    ensures
        r@.len() == v@.len(),
        parts_view(r@) == parts_view(v@),
    decreases v@, 0int,
{
    let mut r: Vec<ContentPart> = Vec::new();
    let mut i: usize = 0;
    while i < v.len()
        invariant
            i <= v@.len(),
            r@.len() == i,
            forall|j: int| 0 <= j < i ==> part_view(#[trigger] r@[j]) == part_view(v@[j]),
        decreases v@.len() - i,
    {
        let p = copy_part(&v[i]);
        r.push(p);
        i = i + 1;
    }
    proof {
        lemma_parts_view_pointwise(r@, v@);
    }
    r
}

impl Clone for ContentPart {
    fn clone(&self) -> (r: Self)
        ensures
            r@ == self@,
    {
        copy_part(self)
    }
}

impl Clone for ToolResultPart {
    fn clone(&self) -> (r: Self)
        ensures
            r.tool_call_id@ == self.tool_call_id@,
            parts_view(r.output@) == parts_view(self.output@),
            r.is_error == self.is_error,
    {
        ToolResultPart {
            tool_call_id: self.tool_call_id.clone(),
            output: copy_parts(&self.output),
            is_error: self.is_error,
        }
    }
}

impl Clone for Message {
    fn clone(&self) -> (r: Self)
        ensures
            r@ == self@,
    {
        Message {
            role: self.role,
            content: copy_parts(&self.content),
            timestamp: self.timestamp,
            metadata: self.metadata.clone(),
        }
    }
}

impl ContentPart {
    /// A text part holding `text`.
    pub fn text(text: &str) -> (r: ContentPart)
        ensures
            r@ == PartView::Text(text@),
    {
        ContentPart::Text { text: text.to_owned() }
    }

    /// The text of this part, when it is a text part.
    pub fn as_text(&self) -> (r: Option<&str>)
        ensures
            match r {
                Some(t) => part_text(self@) == Some(t@),
                None => part_text(self@) is None,
            },
    {
        match self {
            ContentPart::Text { text } => Some(text.as_str()),
            _ => None,
        }
    }
}

impl Message {
    /// A message with the given role and content, stamped with the current
    /// time and empty metadata.
    pub fn new(role: Role, content: Vec<ContentPart>) -> (r: Message)
        ensures
            r.role == role,
            r.content@ == content@,
            r.timestamp is Some,
            r.metadata.source is None,
    {
        Message {
            role,
            content,
            timestamp: Some(now_micros()),
            metadata: MessageMetadata { source: None },
        }
    }

    /// A message with the given role holding one text part.
    pub fn with_text(role: Role, text: &str) -> (r: Message)
        ensures
            r.role == role,
            single_text(r@.content, text@),
            r.timestamp is Some,
            r.metadata.source is None,
    {
        let content = vec![ContentPart::text(text)];
        proof {
            lemma_parts_view(content@);
        }
        Message::new(role, content)
    }

    /// A user message holding one text part.
    pub fn user(text: &str) -> (r: Message)
        ensures
            r.role == Role::User,
            single_text(r@.content, text@),
            r.timestamp is Some,
            r.metadata.source is None,
    {
        Message::with_text(Role::User, text)
    }

    /// An assistant message holding one text part.
    pub fn assistant(text: &str) -> (r: Message)
        ensures
            r.role == Role::Assistant,
            single_text(r@.content, text@),
            r.timestamp is Some,
            r.metadata.source is None,
    {
        Message::with_text(Role::Assistant, text)
    }

    /// A system message holding one text part.
    pub fn system(text: &str) -> (r: Message)
        ensures
            r.role == Role::System,
            single_text(r@.content, text@),
            r.timestamp is Some,
            r.metadata.source is None,
    {
        Message::with_text(Role::System, text)
    }
}

} // verus!
