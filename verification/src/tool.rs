//! Results and errors of tool calls.
use vstd::prelude::*;
use vstd::string::StringExecFns;
use crate::message::{ContentPart, Message, PartView, Role, ToolResultPart, copy_parts, lemma_parts_view, parts_view};

verus! {

/// What a tool call produced.
#[derive(Debug, PartialEq, Eq)]
pub enum ToolResult {
    Success { output: Vec<ContentPart> },
    Error { message: String, brief: String },
}

/// A failure to run a tool at all.
#[derive(Debug, PartialEq, Eq)]
pub struct ToolError {
    pub message: String,
    pub brief: String,
}

/// The abstract value of a tool result.
pub enum ToolResultView {
    Success(Seq<PartView>),
    Error { message: Seq<char>, brief: Seq<char> },
}

impl View for ToolResult {
    type V = ToolResultView;

    open spec fn view(&self) -> ToolResultView {
        match self {
            ToolResult::Success { output } => ToolResultView::Success(parts_view(output@)),
            ToolResult::Error { message, brief } => ToolResultView::Error {
                message: message@,
                brief: brief@,
            },
        }
    }
}

impl Clone for ToolResult {
    fn clone(&self) -> (r: Self)
        ensures
            r@ == self@,
    {
        match self {
            ToolResult::Success { output } => ToolResult::Success { output: copy_parts(output) },
            ToolResult::Error { message, brief } => ToolResult::Error {
                message: message.clone(),
                brief: brief.clone(),
            },
        }
    }
}

impl Clone for ToolError {
    fn clone(&self) -> (r: Self)
        ensures
            r == *self,
    {
        ToolError { message: self.message.clone(), brief: self.brief.clone() }
    }
}

impl ToolResult {
    /// A successful result with the given output.
    pub fn success(output: Vec<ContentPart>) -> (r: ToolResult)
        ensures
            r@ == ToolResultView::Success(parts_view(output@)),
    {
        ToolResult::Success { output }
    }

    /// A failed result with a detailed message and a short summary.
    pub fn error(message: &str, brief: &str) -> (r: ToolResult)
        ensures
            r@ == (ToolResultView::Error { message: message@, brief: brief@ }),
    {
        ToolResult::Error { message: message.to_owned(), brief: brief.to_owned() }
    }
}

impl ToolError {
    /// A tool error with a detailed message and a short summary.
    pub fn new(message: &str, brief: &str) -> (r: ToolError)
        ensures
            r.message@ == message@,
            r.brief@ == brief@,
    {
        ToolError { message: message.to_owned(), brief: brief.to_owned() }
    }

    /// The display text of the error: `"<brief>: <message>"`.
    pub fn to_text(&self) -> (r: String)
        ensures
            r@ == self.brief@ + ": "@ + self.message@,
    {
        let mut s = self.brief.clone();
        s.append(": ");
        s.append(self.message.as_str());
        s
    }
}

/// The output a tool result shows the model and whether it is an error: a
/// success shows its output; an error shows its message as a single text
/// part.
pub open spec fn result_output(r: ToolResultView) -> (Seq<PartView>, bool) {
    match r {
        ToolResultView::Success(output) => (output, false),
        ToolResultView::Error { message, .. } => (seq![PartView::Text(message)], true),
    }
}

impl Message {
    /// A tool message carrying the result of the call with id `call_id`.
    pub fn tool_result(call_id: &str, result: ToolResult) -> (r: Message)
        ensures
            r.role == Role::Tool,
            r@.content == seq![
                PartView::Result {
                    tool_call_id: call_id@,
                    output: result_output(result@).0,
                    is_error: result_output(result@).1,
                },
            ],
            r.timestamp is Some,
            r.metadata.source is None,
    {
        let ghost rv = result@;
        let (output, is_error) = match result {
            ToolResult::Success { output } => (output, false),
            ToolResult::Error { message, brief: _ } => {
                let v = vec![ContentPart::Text { text: message }];
                proof {
                    lemma_parts_view(v@);
                    assert(parts_view(v@) =~= seq![PartView::Text(v@[0]->text@)]);
                }
                (v, true)
            },
        };
        let part = ContentPart::ToolResult {
            tool_result: ToolResultPart { tool_call_id: call_id.to_owned(), output, is_error },
        };
        let content = vec![part];
        proof {
            lemma_parts_view(content@);
            assert(parts_view(content@) =~= seq![content@[0]@]);
        }
        Message::new(Role::Tool, content)
    }
}

} // verus!
