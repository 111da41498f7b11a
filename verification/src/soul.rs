//! The decisions of an agent turn: what to do with each model response.
use vstd::prelude::*;
use vstd::string::StringExecFns;
use crate::context::{Context, ContextView, appended, can_add, text_fits, views_of};
use crate::message::{CallView, ContentPart, Message, MessageView, PartView, Role, ToolCall, lemma_parts_view, parts_view, single_text};
use crate::provider::{ChatRequest, ChatResponse, ModelCapability, ProviderError, TokenUsage, ToolDescriptor, provider_error_text};
use crate::tool::{ToolError, ToolResult, ToolResultView};

verus! {

/// Why a turn stopped.
#[derive(Debug, Clone, PartialEq, Eq)]
pub enum StopReason {
    /// The model answered without asking for tools.
    Completed,
    /// The step limit was reached.
    MaxStepsReached,
    /// The provider failed.
    ProviderError(ProviderError),
}

/// Errors that abort a turn.
#[derive(Debug, Clone, PartialEq, Eq)]
pub enum SoulError {
    Provider(ProviderError),
    /// The arguments of a tool call were not valid JSON.
    ToolArgsParse { tool_name: String, message: String },
}

/// The display text of a turn error.
pub open spec fn soul_error_text(e: SoulError) -> Seq<char> {
    match e {
        SoulError::Provider(p) => "provider error: "@ + provider_error_text(p),
        SoulError::ToolArgsParse { tool_name, message } => "failed to parse args for tool '"@ + tool_name@
            + "': "@ + message@,
    }
}

impl SoulError {
    /// The display text of the error.
    pub fn to_text(&self) -> (r: String)
        ensures
            r@ == soul_error_text(*self),
    {
        match self {
            SoulError::Provider(e) => {
                let mut s = "provider error: ".to_owned();
                s.append(e.to_text().as_str());
                s
            },
            SoulError::ToolArgsParse { tool_name, message } => {
                let mut s = "failed to parse args for tool '".to_owned();
                s.append(tool_name.as_str());
                s.append("': ");
                s.append(message.as_str());
                s
            },
        }
    }
}

/// Outcome of a turn.
#[derive(Debug, Clone)]
pub struct TurnResult {
    /// The final assistant message (empty when the step limit was reached
    /// before any).
    pub message: Message,
    /// Number of model calls made.
    pub steps_taken: usize,
    /// Whether the model finished on its own, without asking for tools.
    pub completed: bool,
    /// Why the turn stopped.
    pub stop_reason: StopReason,
}

/// The tool calls of a content list, in order.
pub open spec fn tool_calls_of(content: Seq<PartView>) -> Seq<CallView>
    decreases content.len(),
{
    if content.len() == 0 {
        Seq::empty()
    } else {
        match content.last() {
            PartView::Call(c) => tool_calls_of(content.drop_last()).push(c),
            _ => tool_calls_of(content.drop_last()),
        }
    }
}

/// The views of a list of tool calls.
pub open spec fn call_views(s: Seq<ToolCall>) -> Seq<CallView> {
    s.map_values(|c: ToolCall| c@)
}

/// The tool calls a message asks for, in order.
pub fn extract_tool_calls(message: &Message) -> (r: Vec<ToolCall>)
    ensures
        call_views(r@) == tool_calls_of(message@.content),
{
    let mut calls: Vec<ToolCall> = Vec::new();
    let mut i: usize = 0;
    let ghost pv = parts_view(message.content@);
    proof {
        lemma_parts_view(message.content@);
    }
    while i < message.content.len()
        invariant
            i <= message.content@.len(),
            pv == parts_view(message.content@),
            pv.len() == message.content@.len(),
            forall|k: int| 0 <= k < message.content@.len() ==> #[trigger] pv[k] == message.content@[k]@,
            call_views(calls@) == tool_calls_of(pv.take(i as int)),
        decreases message.content@.len() - i,
    {
        proof {
            assert(pv.take(i + 1).drop_last() =~= pv.take(i as int));
            assert(pv.take(i + 1).last() == message.content@[i as int]@);
        }
        match &message.content[i] {
            ContentPart::ToolCall { tool_call } => {
                let ghost prev = calls@;
                let c = tool_call.clone();
                calls.push(c);
                proof {
                    assert(call_views(calls@) =~= call_views(prev).push(tool_call@));
                }
            },
            _ => {},
        }
        i = i + 1;
    }
    proof {
        assert(pv.take(message.content@.len() as int) =~= pv);
    }
    calls
}

/// The last assistant message of a history.
pub open spec fn last_assistant(h: Seq<MessageView>) -> Option<MessageView>
    decreases h.len(),
{
    if h.len() == 0 {
        None
    } else if h.last().role == Role::Assistant {
        Some(h.last())
    } else {
        last_assistant(h.drop_last())
    }
}

/// What to do after a model response.
pub enum TurnStep {
    /// The turn is over.
    Finished(TurnResult),
    /// Run these tool calls, record their results, then call the model again.
    RunTools(Vec<ToolCall>),
}

/// The state of an agent's turns: its context, step limit, and the number of
/// model calls made in the current turn.
pub struct TurnEngine {
    context: Context,
    max_steps: usize,
    steps: usize,
}

/// The abstract state of a turn engine.
pub struct TurnView {
    pub context: ContextView,
    pub max_steps: nat,
    pub steps: nat,
}

impl View for TurnEngine {
    type V = TurnView;

    closed spec fn view(&self) -> TurnView {
        TurnView { context: self.context@, max_steps: self.max_steps as nat, steps: self.steps as nat }
    }
}

impl TurnEngine {
    /// An engine with an empty context of 200000 tokens and at most 50 steps
    /// per turn.
    pub fn new() -> (r: TurnEngine)
        ensures
            r@.context.history.len() == 0,
            r@.context.token_count == 0,
            r@.context.max_tokens == 200_000,
            r@.max_steps == 50,
            r@.steps == 0,
    {
        TurnEngine { context: Context::new(200_000), max_steps: 50, steps: 0 }
    }

    /// The same engine with another step limit.
    pub fn with_max_steps(self, max_steps: usize) -> (r: TurnEngine)
        ensures
            r@ == (TurnView { max_steps: max_steps as nat, ..self@ }),
    {
        TurnEngine { max_steps, ..self }
    }

    /// The same engine with a fresh empty context of the given budget.
    pub fn with_context_size(self, max_tokens: usize) -> (r: TurnEngine)
        ensures
            r@.context.history.len() == 0,
            r@.context.token_count == 0,
            r@.context.max_tokens == max_tokens,
            r@.context.checkpoints.len() == 0,
            r@.max_steps == self@.max_steps,
            r@.steps == self@.steps,
    {
        TurnEngine { context: Context::new(max_tokens), ..self }
    }

    /// The conversation context.
    pub fn context(&self) -> (r: &Context)
        ensures
            r@ == self@.context,
    {
        &self.context
    }

    /// Starts a turn: appends the user's input and resets the step count.
    pub fn begin(&mut self, input: &str)
        requires
            text_fits(old(self)@.context, input@),
        ensures
            final(self)@.steps == 0,
            final(self)@.max_steps == old(self)@.max_steps,
            ({
                let m = final(self)@.context.history.last();
                &&& m.role == Role::User
                &&& single_text(m.content, input@)
                &&& final(self)@.context == appended(old(self)@.context, m)
            }),
    {
        let msg = Message::user(input);
        proof {
            assert(msg@.content =~= seq![PartView::Text(input@)]);
        }
        self.context.append_message(msg);
        self.steps = 0;
    }

    /// Whether another model call is allowed in this turn.
    pub fn can_step(&self) -> (r: bool)
        ensures
            r == (self@.steps < self@.max_steps),
    {
        self.steps < self.max_steps
    }

    /// Takes a model response: appends it to the context and counts the step.
    /// A response without tool calls finishes the turn as completed, with the
    /// response as its message; otherwise its tool calls are to be run.
    pub fn on_response(&mut self, message: Message) -> (r: TurnStep)
        requires
            old(self)@.steps < old(self)@.max_steps,
            can_add(old(self)@.context, message@),
        ensures
            final(self)@.context == appended(old(self)@.context, message@),
            final(self)@.steps == old(self)@.steps + 1,
            final(self)@.max_steps == old(self)@.max_steps,
            match r {
                TurnStep::Finished(t) => tool_calls_of(message@.content).len() == 0 && t.message@ == message@
                    && t.steps_taken == final(self)@.steps && t.steps_taken <= final(self)@.max_steps && t.completed
                    && t.stop_reason == StopReason::Completed,
                TurnStep::RunTools(calls) => tool_calls_of(message@.content).len() > 0 && call_views(calls@)
                    == tool_calls_of(message@.content),
            },
    {
        let calls = extract_tool_calls(&message);
        let copy = message.clone();
        self.context.append_message(message);
        self.steps = self.steps + 1;
        if calls.len() == 0 {
            TurnStep::Finished(TurnResult {
                message: copy,
                steps_taken: self.steps,
                completed: true,
                stop_reason: StopReason::Completed,
            })
        } else {
            TurnStep::RunTools(calls)
        }
    }

    /// Takes the outcome of a model call: a response is handled as by
    /// `on_response`; a failed call ends the turn with the provider's error,
    /// leaving the context and the step count as they were.
    pub fn on_reply(&mut self, reply: Result<Message, ProviderError>) -> (r: Result<TurnStep, SoulError>)
        requires
            old(self)@.steps < old(self)@.max_steps,
            reply matches Ok(m) ==> can_add(old(self)@.context, m@),
        ensures
            match reply {
                Err(e) => r == Err::<TurnStep, SoulError>(SoulError::Provider(e)) && final(self)@ == old(self)@,
                Ok(message) => r matches Ok(step) && final(self)@.context == appended(old(self)@.context, message@)
                    && final(self)@.steps == old(self)@.steps + 1 && final(self)@.max_steps == old(self)@.max_steps
                    && match step {
                    TurnStep::Finished(t) => tool_calls_of(message@.content).len() == 0 && t.message@ == message@
                        && t.steps_taken == final(self)@.steps && t.completed && t.stop_reason
                        == StopReason::Completed,
                    TurnStep::RunTools(calls) => tool_calls_of(message@.content).len() > 0 && call_views(calls@)
                        == tool_calls_of(message@.content),
                },
            },
    {
        match reply {
            Ok(message) => Ok(self.on_response(message)),
            Err(e) => Err(SoulError::Provider(e)),
        }
    }

    /// Records the result of a tool call as a tool message.
    pub fn record_tool_result(&mut self, call_id: &str, result: ToolResult)
        ensures
            final(self)@.steps == old(self)@.steps,
            final(self)@.max_steps == old(self)@.max_steps,
            ({
                let m = final(self)@.context.history.last();
                &&& m.role == Role::Tool
                &&& m.content == seq![
                    PartView::Result {
                        tool_call_id: call_id@,
                        output: crate::tool::result_output(result@).0,
                        is_error: crate::tool::result_output(result@).1,
                    },
                ]
                &&& final(self)@.context == appended(old(self)@.context, m)
            }),
    {
        let msg = Message::tool_result(call_id, result);
        proof {
            assert(crate::context::content_text_len(msg@.content) == 0) by {
                assert(msg@.content.drop_last() =~= Seq::<PartView>::empty());
                assert(crate::context::content_text_len(Seq::<PartView>::empty()) == 0);
            }
            crate::context::lemma_context_bounds(&self.context);
        }
        self.context.append_message(msg);
    }

    /// The request for the next model call: the whole conversation so far
    /// and the given tools, with no separate system prompt.
    pub fn build_request(&self, tools: Vec<ToolDescriptor>) -> (r: ChatRequest)
        ensures
            views_of(r.messages@) == self@.context.history,
            r.tools@ == tools@,
            r.system_prompt is None,
    {
        let h = self.context.history();
        let mut messages: Vec<Message> = Vec::new();
        let mut i: usize = 0;
        while i < h.len()
            invariant
                i <= h@.len(),
                views_of(h@) == self@.context.history,
                views_of(messages@) == views_of(h@).take(i as int),
            decreases h@.len() - i,
        {
            let ghost before = messages@;
            let m = h[i].clone();
            messages.push(m);
            assert(views_of(messages@) =~= views_of(h@).take(i + 1)) by {
                assert(views_of(messages@) =~= views_of(before).push(h@[i as int]@));
            }
            i = i + 1;
        }
        assert(views_of(h@).take(h@.len() as int) =~= views_of(h@));
        ChatRequest { messages, tools, system_prompt: None }
    }

    /// The result of a turn that used up its steps: the last assistant
    /// message of the history (an empty one when there is none), not
    /// completed.
    pub fn finish_at_limit(&self) -> (r: TurnResult)
        ensures
            r.steps_taken == self@.max_steps,
            !r.completed,
            r.stop_reason == StopReason::MaxStepsReached,
            match last_assistant(self@.context.history) {
                Some(m) => r.message@ == m,
                None => r.message.role == Role::Assistant && single_text(r.message@.content, Seq::empty()),
            },
    {
        let h = self.context.history();
        let mut i: usize = h.len();
        proof {
            assert(views_of(h@).take(h@.len() as int) =~= views_of(h@));
        }
        while i > 0 && !matches!(h[i - 1].role, Role::Assistant)
            invariant
                i <= h@.len(),
                views_of(h@) == self@.context.history,
                last_assistant(self@.context.history) == last_assistant(views_of(h@).take(i as int)),
            decreases i,
        {
            proof {
                assert(views_of(h@).take(i as int).drop_last() =~= views_of(h@).take(i - 1));
            }
            i = i - 1;
        }
        let message = if i == 0 {
            proof {
                assert(views_of(h@).take(0) =~= Seq::<MessageView>::empty());
                reveal_strlit("");
                assert(""@ =~= Seq::<char>::empty());
            }
            let m = Message::assistant("");
            assert(single_text(m@.content, Seq::empty()));
            m
        } else {
            proof {
                assert(views_of(h@).take(i as int).last() == h@[i - 1]@);
            }
            let m = h[i - 1].clone();
            assert(last_assistant(self@.context.history) == Some(m@));
            m
        };
        TurnResult {
            message,
            steps_taken: self.max_steps,
            completed: false,
            stop_reason: StopReason::MaxStepsReached,
        }
    }
}

/// The tool result fed back for a call whose outcome is `outcome`: the tool's
/// own result, or an error result carrying the failure's message and summary.
pub fn tool_outcome(outcome: Result<ToolResult, ToolError>) -> (r: ToolResult)
    ensures
        match outcome {
            Ok(res) => r@ == res@,
            Err(e) => r@ == (ToolResultView::Error { message: e.message@, brief: e.brief@ }),
        },
{
    match outcome {
        Ok(res) => res,
        Err(e) => ToolResult::Error { message: e.message, brief: e.brief },
    }
}

/// The tool result fed back for a call whose arguments are not valid JSON.
pub fn invalid_arguments(detail: &str) -> (r: ToolResult)
    ensures
        r@ == (ToolResultView::Error { message: "invalid JSON arguments: "@ + detail@, brief: "parse error"@ }),
{
    let mut message = "invalid JSON arguments: ".to_owned();
    message.append(detail);
    ToolResult::Error { message, brief: "parse error".to_owned() }
}

/// The arguments of a tool call, parsed as JSON; when they are not JSON,
/// the error result fed back to the model instead.
pub fn parse_tool_arguments(call: &ToolCall) -> (r: Result<serde_json::Value, ToolResult>)
    ensures
        match crate::utils::json_parse(call.function.arguments@) {
            Ok(v) => r == Ok::<serde_json::Value, ToolResult>(v),
            Err(m) => r matches Err(res) && res@ == (ToolResultView::Error {
                message: "invalid JSON arguments: "@ + m,
                brief: "parse error"@,
            }),
        },
{
    match crate::utils::parse_json(call.function.arguments.as_str()) {
        Ok(v) => Ok(v),
        Err(m) => Err(invalid_arguments(m.as_str())),
    }
}

/// A provider that answers with a fixed list of responses, in order, and
/// then with the assistant message `done`.
pub struct MockProvider {
    responses: Vec<ChatResponse>,
}

impl MockProvider {
    /// The responses still to be given, in order.
    pub closed spec fn queued(&self) -> Seq<ChatResponse> {
        self.responses@
    }

    /// A provider that will give `responses`, in order.
    pub fn new(responses: Vec<ChatResponse>) -> (r: MockProvider)
        ensures
            r.queued() == responses@,
    {
        MockProvider { responses }
    }

    /// The next response: the first one still queued, or, when none is
    /// left, the assistant message `done` with no token usage and the id
    /// `mock`.
    pub fn chat(&mut self, request: ChatRequest) -> (r: Result<ChatResponse, ProviderError>)
        ensures
            old(self).queued().len() > 0 ==> r == Ok::<ChatResponse, ProviderError>(old(self).queued()[0])
                && final(self).queued() == old(self).queued().drop_first(),
            old(self).queued().len() == 0 ==> final(self).queued().len() == 0 && (r matches Ok(resp)
                && resp.message.role == Role::Assistant && single_text(resp.message@.content, "done"@)
                && resp.usage.input == 0 && resp.usage.output == 0 && resp.id@ == "mock"@),
    {
        if self.responses.len() == 0 {
            let message = Message::assistant("done");
            proof {
                assert(message@.content =~= seq![PartView::Text("done"@)]);
            }
            Ok(ChatResponse { message, usage: TokenUsage { input: 0, output: 0 }, id: "mock".to_string() })
        } else {
            Ok(self.responses.remove(0))
        }
    }

    /// The model name: `mock`.
    pub fn model_name(&self) -> (r: &str)
        ensures
            r@ == "mock"@,
    {
        "mock"
    }

    /// The largest context, in tokens.
    pub fn max_context_size(&self) -> (r: usize)
        ensures
            r == 200000,
    {
        200000
    }

    /// What the mock offers: text and tool use.
    pub fn capabilities(&self) -> (r: Vec<ModelCapability>)
        ensures
            r@ == seq![ModelCapability::Text, ModelCapability::ToolUse],
    {
        let mut v = Vec::new();
        v.push(ModelCapability::Text);
        v.push(ModelCapability::ToolUse);
        v
    }

    /// The thinking effort asked for: none.
    pub fn thinking_effort(&self) -> (r: Option<&str>)
        ensures
            r is None,
    {
        None
    }
}

/// The tool calls of two content lists one after the other are the calls of
/// the first followed by those of the second: every call is kept, in order.
pub proof fn law_tool_calls_concatenate(a: Seq<PartView>, b: Seq<PartView>)
    ensures
        tool_calls_of(a + b) == tool_calls_of(a) + tool_calls_of(b),
    decreases b.len(),
{
    if b.len() == 0 {
        assert(a + b =~= a);
        assert(tool_calls_of(a) + Seq::<CallView>::empty() =~= tool_calls_of(a));
    } else {
        law_tool_calls_concatenate(a, b.drop_last());
        assert((a + b).drop_last() =~= a + b.drop_last());
        assert((a + b).last() == b.last());
        match b.last() {
            PartView::Call(c) => {
                assert(tool_calls_of(a) + tool_calls_of(b.drop_last()).push(c) =~= (tool_calls_of(a)
                    + tool_calls_of(b.drop_last())).push(c));
            },
            _ => {},
        }
    }
}

/// A single part holds one call when it is a tool call, and none otherwise.
pub proof fn law_tool_calls_of_one_part(p: PartView)
    ensures
        tool_calls_of(seq![p]) == match p {
            PartView::Call(c) => seq![c],
            _ => Seq::<CallView>::empty(),
        },
{
    assert(seq![p].drop_last() =~= Seq::<PartView>::empty());
    assert(seq![p].last() == p);
    assert(tool_calls_of(Seq::<PartView>::empty()) == Seq::<CallView>::empty());
    assert(tool_calls_of(seq![p]) == match p {
        PartView::Call(c) => tool_calls_of(Seq::<PartView>::empty()).push(c),
        _ => tool_calls_of(Seq::<PartView>::empty()),
    });
    match p {
        PartView::Call(c) => {
            assert(Seq::<CallView>::empty().push(c) =~= seq![c]);
        },
        _ => {},
    }
}

/// The calls of a content list are exactly its tool-call parts, in order:
/// as many as there are tool-call parts, the k-th call being the k-th of
/// them.
pub proof fn law_tool_calls_are_the_call_parts(content: Seq<PartView>)
    ensures
        tool_calls_of(content).len() == content.filter(|p: PartView| p is Call).len(),
        forall|k: int|
            0 <= k < tool_calls_of(content).len() ==> PartView::Call(#[trigger] tool_calls_of(content)[k])
                == content.filter(|p: PartView| p is Call)[k],
    decreases content.len(),
{
    let f = |p: PartView| p is Call;
    reveal(Seq::filter);
    if content.len() > 0 {
        law_tool_calls_are_the_call_parts(content.drop_last());
    }
}

} // verus!
