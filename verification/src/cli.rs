//! Command-line helpers: agent mode names, REPL commands, message output.
use vstd::prelude::*;
use crate::agent::AgentMode;
use crate::anthropic::BuildError;
use crate::message::Message;
use crate::provider::{lower_text, to_lowercase};
use crate::text::str_eq;
use crate::soul::{SoulError, TurnResult, soul_error_text};
use crate::tui::{CommandView, SoulCommand, TuiEvent, message_text, message_text_of};
use vstd::string::StringExecFns;

verus! {

broadcast use vstd::string::group_string_axioms;

/// The agent mode a (lower-cased) name stands for.
pub open spec fn mode_named(s: Seq<char>) -> Option<AgentMode> {
    if s == "implement"@ || s == "impl"@ || s == "code"@ {
        Some(AgentMode::Implement)
    } else if s == "review"@ || s == "rev"@ {
        Some(AgentMode::Review)
    } else if s == "explore"@ || s == "research"@ {
        Some(AgentMode::Explore)
    } else if s == "test"@ {
        Some(AgentMode::Test)
    } else if s == "assist"@ || s == "help"@ {
        Some(AgentMode::Assist)
    } else {
        None
    }
}

/// The agent mode named by `s`, in any letter case.
pub fn parse_mode(s: &str) -> (r: Option<AgentMode>)
    ensures
        r == mode_named(lower_text(s@)),
{
    let lower = to_lowercase(s);
    let l = lower.as_str();
    if str_eq(l, "implement") || str_eq(l, "impl") || str_eq(l, "code") {
        Some(AgentMode::Implement)
    } else if str_eq(l, "review") || str_eq(l, "rev") {
        Some(AgentMode::Review)
    } else if str_eq(l, "explore") || str_eq(l, "research") {
        Some(AgentMode::Explore)
    } else if str_eq(l, "test") {
        Some(AgentMode::Test)
    } else if str_eq(l, "assist") || str_eq(l, "help") {
        Some(AgentMode::Assist)
    } else {
        None
    }
}

/// Commands of the interactive prompt.
#[derive(Debug, Clone, Copy, PartialEq, Eq, Structural)]
pub enum Command {
    Quit,
}

/// The command a prompt line is: exactly `/quit`, or none.
pub fn parse_command(input: &str) -> (r: Option<Command>)
    ensures
        r == (if input@ == "/quit"@ { Some(Command::Quit) } else { None }),
{
    if str_eq(input, "/quit") {
        Some(Command::Quit)
    } else {
        None
    }
}

/// The printable text of a message: its text parts, joined.
pub fn format_message(msg: &Message) -> (r: String)
    ensures
        r@ == message_text(*msg),
{
    message_text_of(msg)
}

/// What the agent task does with a command from the interface.
#[derive(Debug, PartialEq, Eq)]
pub enum SoulAction {
    /// Show `status` in the interface, then run a turn on `input`.
    RunTurn { input: String, status: String },
    /// Send the text to the shell.
    SendToShell(String),
    /// Show this status in the interface.
    Notify(String),
    /// Stop the agent task.
    Stop,
    /// Nothing to do.
    Ignore,
}

/// What the agent task does with a command: run a turn on user input,
/// pass terminal input to the shell, report an interrupt, stop on quit,
/// and ignore a resize.
pub fn soul_action(cmd: SoulCommand) -> (r: SoulAction)
    ensures
        match cmd@ {
            CommandView::UserInput(t) => r matches SoulAction::RunTurn { input, status } && input@ == t
                && status@ == "Thinking..."@,
            CommandView::TerminalOutput(t) => r matches SoulAction::SendToShell(s) && s@ == t,
            CommandView::Interrupt => r matches SoulAction::Notify(s) && s@ == "Interrupted"@,
            CommandView::Quit => r is Stop,
            CommandView::Resize(_, _) => r is Ignore,
        },
{
    match cmd {
        SoulCommand::UserInput(t) => SoulAction::RunTurn { input: t, status: "Thinking...".to_string() },
        SoulCommand::TerminalOutput(t) => SoulAction::SendToShell(t),
        SoulCommand::Interrupt => SoulAction::Notify("Interrupted".to_string()),
        SoulCommand::Quit => SoulAction::Stop,
        SoulCommand::Resize(_, _) => SoulAction::Ignore,
    }
}

/// The events that report a turn to the interface: the assistant's
/// message and the end of the turn, or the error.
pub fn turn_report(outcome: Result<TurnResult, SoulError>) -> (r: Vec<TuiEvent>)
    ensures
        match outcome {
            Ok(res) => r@.len() == 2 && (r@[0] matches TuiEvent::AssistantMessage(m) && m@ == res.message@)
                && r@[1] is TurnComplete,
            Err(e) => r@.len() == 1 && (r@[0] matches TuiEvent::Error { message } && message@
                == soul_error_text(e)),
        },
{
    let mut v: Vec<TuiEvent> = Vec::new();
    match outcome {
        Ok(res) => {
            v.push(TuiEvent::AssistantMessage(res.message));
            v.push(TuiEvent::TurnComplete);
        },
        Err(e) => {
            v.push(TuiEvent::Error { message: e.to_text() });
        },
    }
    v
}

/// What the interface is told when the agent task starts: without an API
/// key the agent runs in echo mode, and says so.
pub fn startup_notice(api_key_present: bool) -> (r: Option<TuiEvent>)
    ensures
        match r {
            None => api_key_present,
            Some(TuiEvent::Status(s)) => !api_key_present && s@
                == "ANTHROPIC_API_KEY not set \u{2014} running in echo mode"@,
            Some(_) => false,
        },
{
    if api_key_present {
        None
    } else {
        Some(TuiEvent::Status("ANTHROPIC_API_KEY not set \u{2014} running in echo mode".to_string()))
    }
}

/// The error event for a provider that could not be built.
pub fn provider_error_event(e: &BuildError) -> (r: TuiEvent)
    ensures
        r matches TuiEvent::Error { message } && message@ == "Anthropic provider error: "@ + match *e {
            BuildError::InvalidClient(m) => "failed to build HTTP client: "@ + m@,
        },
{
    let mut message = "Anthropic provider error: ".to_string();
    message.append(e.to_text().as_str());
    TuiEvent::Error { message }
}

/// The error event for a failed write to the shell.
pub fn shell_error_event(detail: &str) -> (r: TuiEvent)
    ensures
        r matches TuiEvent::Error { message } && message@ == "shell error: "@ + detail@,
{
    let mut message = "shell error: ".to_string();
    message.append(detail);
    TuiEvent::Error { message }
}

/// What a single turn from the command line prints: the assistant's text
/// on standard output, or `error: ` and the error on standard error.
pub fn turn_output(outcome: &Result<TurnResult, SoulError>) -> (r: Result<String, String>)
    ensures
        match *outcome {
            Ok(res) => r matches Ok(s) && s@ == message_text(res.message),
            Err(e) => r matches Err(s) && s@ == "error: "@ + soul_error_text(e),
        },
{
    match outcome {
        Ok(res) => Ok(format_message(&res.message)),
        Err(e) => {
            let mut s = "error: ".to_string();
            s.append(e.to_text().as_str());
            Err(s)
        },
    }
}

} // verus!
