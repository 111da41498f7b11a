//! The state of the terminal user interface and how keys and events change
//! it. Drawing and the terminal itself are handled by the application.
use vstd::prelude::*;
use crate::message::{ContentPart, Message, lemma_parts_view, parts_view};
use crate::anthropic::joined_text;
use crate::text::{string_of};
use vstd::string::StringExecFns;

verus! {

broadcast use vstd::string::group_string_axioms;

/// Which region of the screen has focus.
#[derive(Debug, Clone, Copy, PartialEq, Eq, Structural)]
pub enum Focus {
    Chat,
    Terminal,
    Input,
}

/// One item of the chat transcript.
#[derive(Debug, Clone, PartialEq, Eq)]
pub enum ChatItem {
    User(String),
    Assistant(String),
    ToolCall { name: String, args: String },
    ToolResult { name: String, result: String },
    Error(String),
    Status(String),
}

/// The abstract value of a chat item.
pub enum ChatItemView {
    User(Seq<char>),
    Assistant(Seq<char>),
    ToolCall { name: Seq<char>, args: Seq<char> },
    ToolResult { name: Seq<char>, result: Seq<char> },
    Error(Seq<char>),
    Status(Seq<char>),
}

impl View for ChatItem {
    type V = ChatItemView;

    open spec fn view(&self) -> ChatItemView {
        match self {
            ChatItem::User(t) => ChatItemView::User(t@),
            ChatItem::Assistant(t) => ChatItemView::Assistant(t@),
            ChatItem::ToolCall { name, args } => ChatItemView::ToolCall { name: name@, args: args@ },
            ChatItem::ToolResult { name, result } => ChatItemView::ToolResult { name: name@, result: result@ },
            ChatItem::Error(t) => ChatItemView::Error(t@),
            ChatItem::Status(t) => ChatItemView::Status(t@),
        }
    }
}

/// Commands the interface sends to the agent task.
#[derive(Debug, Clone, PartialEq, Eq)]
pub enum SoulCommand {
    /// The user submitted a message.
    UserInput(String),
    /// The user wants to interrupt the current turn.
    Interrupt,
    /// The user wants to quit.
    Quit,
    /// Input for the terminal pane.
    TerminalOutput(String),
    /// The terminal was resized (rows, columns).
    Resize(u16, u16),
}

/// The abstract value of a command.
pub enum CommandView {
    UserInput(Seq<char>),
    Interrupt,
    Quit,
    TerminalOutput(Seq<char>),
    Resize(u16, u16),
}

impl View for SoulCommand {
    type V = CommandView;

    open spec fn view(&self) -> CommandView {
        match self {
            SoulCommand::UserInput(t) => CommandView::UserInput(t@),
            SoulCommand::Interrupt => CommandView::Interrupt,
            SoulCommand::Quit => CommandView::Quit,
            SoulCommand::TerminalOutput(t) => CommandView::TerminalOutput(t@),
            SoulCommand::Resize(r, c) => CommandView::Resize(*r, *c),
        }
    }
}

/// A key, as far as the interface tells keys apart.
#[derive(Debug, Clone, Copy, PartialEq, Eq, Structural)]
pub enum Key {
    Char(char),
    Tab,
    BackTab,
    Left,
    Right,
    Up,
    Down,
    Enter,
    Backspace,
    Delete,
    Home,
    End,
    Other,
}

/// A key press with the modifiers the interface looks at.
#[derive(Debug, Clone, Copy, PartialEq, Eq, Structural)]
pub struct KeyPress {
    pub key: Key,
    pub control: bool,
    pub alt: bool,
}

/// A request to move the divider between chat and terminal panes.
#[derive(Debug, Clone, Copy, PartialEq, Eq, Structural)]
pub enum SplitChange {
    Narrower,
    Wider,
}

/// A mouse wheel movement.
#[derive(Debug, Clone, Copy, PartialEq, Eq, Structural)]
pub enum Scroll {
    Up,
    Down,
    Other,
}

/// Events from the agent task for the interface to show.
#[derive(Debug, Clone)]
pub enum TuiEvent {
    /// A new assistant message.
    AssistantMessage(Message),
    /// A tool call, with its arguments as JSON text.
    ToolCall { name: String, args: String },
    /// A tool result, already rendered as text.
    ToolResult { name: String, result: String },
    /// The assistant's reasoning so far.
    Thinking { text: String },
    /// An error occurred.
    Error { message: String },
    /// Output of the persistent terminal.
    ShellOutput(String),
    /// A status update.
    Status(String),
    /// The current turn has completed.
    TurnComplete,
}

/// What the application must do for the terminal after an event.
#[derive(Debug, Clone, PartialEq, Eq)]
pub enum TerminalEffect {
    Nothing,
    /// Mark the start of assistant output (OSC 133 C).
    MarkOutputStart,
    /// Mark the end of assistant output (OSC 133 D).
    MarkOutputEnd,
    /// Feed these bytes to the terminal emulator.
    Feed(String),
}

/// The interface's state.
pub struct AppState {
    pub messages: Vec<ChatItem>,
    pub input_buffer: Vec<char>,
    pub input_cursor: usize,
    pub focus: Focus,
    pub status: String,
    pub thinking: Option<String>,
    pub running: bool,
    pub scroll_offset: usize,
    pub terminal_scroll: usize,
}

/// The abstract value of the interface state.
pub struct AppView {
    pub messages: Seq<ChatItemView>,
    pub input: Seq<char>,
    pub cursor: nat,
    pub focus: Focus,
    pub status: Seq<char>,
    pub thinking: Option<Seq<char>>,
    pub running: bool,
    pub scroll_offset: nat,
    pub terminal_scroll: nat,
}

impl View for AppState {
    type V = AppView;

    open spec fn view(&self) -> AppView {
        AppView {
            messages: self.messages@.map_values(|m: ChatItem| m@),
            input: self.input_buffer@,
            cursor: self.input_cursor as nat,
            focus: self.focus,
            status: self.status@,
            thinking: match self.thinking {
                Some(t) => Some(t@),
                None => None,
            },
            running: self.running,
            scroll_offset: self.scroll_offset as nat,
            terminal_scroll: self.terminal_scroll as nat,
        }
    }
}

/// `n + d`, held at `usize::MAX`.
pub open spec fn sat_add(n: nat, d: nat) -> nat {
    if n + d > usize::MAX { usize::MAX as nat } else { n + d }
}

/// `n - d`, held at 0.
pub open spec fn sat_sub(n: nat, d: nat) -> nat {
    if n < d { 0 } else { (n - d) as nat }
}

/// The next focus on Tab.
pub open spec fn next_focus(f: Focus) -> Focus {
    match f {
        Focus::Chat => Focus::Terminal,
        Focus::Terminal => Focus::Input,
        Focus::Input => Focus::Chat,
    }
}

/// The previous focus on Shift-Tab.
pub open spec fn prev_focus(f: Focus) -> Focus {
    match f {
        Focus::Chat => Focus::Input,
        Focus::Terminal => Focus::Chat,
        Focus::Input => Focus::Terminal,
    }
}

/// Whether the focused region takes typed text.
pub open spec fn editing(f: Focus) -> bool {
    f == Focus::Input || f == Focus::Terminal
}

/// The state, command and divider change produced by a key press.
pub open spec fn key_step(s: AppView, k: KeyPress) -> (AppView, Option<CommandView>, Option<SplitChange>) {
    match k.key {
        Key::Char(c) if (c == 'c' || c == 'd') && k.control => (
            AppView { running: false, ..s },
            Some(CommandView::Quit),
            None,
        ),
        Key::Char(c) if c == 'c' && k.alt => (
            AppView { status: "Interrupted"@, ..s },
            Some(CommandView::Interrupt),
            None,
        ),
        Key::Tab => (AppView { focus: next_focus(s.focus), ..s }, None, None),
        Key::BackTab => (AppView { focus: prev_focus(s.focus), ..s }, None, None),
        Key::Left if k.alt => (s, None, Some(SplitChange::Narrower)),
        Key::Right if k.alt => (s, None, Some(SplitChange::Wider)),
        Key::Up => (
            match s.focus {
                Focus::Chat => AppView { scroll_offset: sat_add(s.scroll_offset, 1), ..s },
                Focus::Terminal => AppView { terminal_scroll: sat_add(s.terminal_scroll, 1), ..s },
                Focus::Input => s,
            },
            None,
            None,
        ),
        Key::Down => (
            match s.focus {
                Focus::Chat => AppView { scroll_offset: sat_sub(s.scroll_offset, 1), ..s },
                Focus::Terminal => AppView { terminal_scroll: sat_sub(s.terminal_scroll, 1), ..s },
                Focus::Input => s,
            },
            None,
            None,
        ),
        Key::Enter => if s.focus == Focus::Input && s.input.len() > 0 {
            (
                AppView {
                    input: Seq::empty(),
                    cursor: 0,
                    messages: s.messages.push(ChatItemView::User(s.input)),
                    ..s
                },
                Some(CommandView::UserInput(s.input)),
                None,
            )
        } else if s.focus == Focus::Terminal {
            (AppView { input: Seq::empty(), cursor: 0, ..s }, Some(CommandView::TerminalOutput(s.input)), None)
        } else {
            (s, None, None)
        },
        Key::Char(c) => if editing(s.focus) {
            (AppView { input: s.input.insert(s.cursor as int, c), cursor: s.cursor + 1, ..s }, None, None)
        } else {
            (s, None, None)
        },
        Key::Backspace => if editing(s.focus) && s.cursor > 0 {
            (
                AppView { input: s.input.remove(s.cursor - 1), cursor: (s.cursor - 1) as nat, ..s },
                None,
                None,
            )
        } else {
            (s, None, None)
        },
        Key::Delete => if editing(s.focus) && s.cursor < s.input.len() {
            (AppView { input: s.input.remove(s.cursor as int), ..s }, None, None)
        } else {
            (s, None, None)
        },
        Key::Left => if editing(s.focus) {
            (AppView { cursor: sat_sub(s.cursor, 1), ..s }, None, None)
        } else {
            (s, None, None)
        },
        Key::Right => if editing(s.focus) && s.cursor < s.input.len() {
            (AppView { cursor: s.cursor + 1, ..s }, None, None)
        } else {
            (s, None, None)
        },
        Key::Home => (AppView { cursor: 0, ..s }, None, None),
        Key::End => (AppView { cursor: s.input.len(), ..s }, None, None),
        Key::Other => (s, None, None),
    }
}

/// The state produced by a mouse wheel movement: three lines in the focused
/// pane.
pub open spec fn scroll_step(s: AppView, d: Scroll) -> AppView {
    match (d, s.focus) {
        (Scroll::Down, Focus::Chat) => AppView { scroll_offset: sat_sub(s.scroll_offset, 3), ..s },
        (Scroll::Down, Focus::Terminal) => AppView { terminal_scroll: sat_sub(s.terminal_scroll, 3), ..s },
        (Scroll::Up, Focus::Chat) => AppView { scroll_offset: sat_add(s.scroll_offset, 3), ..s },
        (Scroll::Up, Focus::Terminal) => AppView { terminal_scroll: sat_add(s.terminal_scroll, 3), ..s },
        _ => s,
    }
}

/// The text of the text parts of a message, joined.
pub open spec fn message_text(m: Message) -> Seq<char> {
    joined_text(parts_view(m.content@))
}

/// The state and terminal effect produced by an event from the agent task.
pub open spec fn event_step(s: AppView, e: TuiEvent) -> (AppView, TerminalEffect) {
    match e {
        TuiEvent::AssistantMessage(m) => (
            if message_text(m).len() > 0 {
                AppView { messages: s.messages.push(ChatItemView::Assistant(message_text(m))), ..s }
            } else {
                s
            },
            TerminalEffect::MarkOutputStart,
        ),
        TuiEvent::ToolCall { name, args } => (
            AppView { messages: s.messages.push(ChatItemView::ToolCall { name: name@, args: args@ }), ..s },
            TerminalEffect::Nothing,
        ),
        TuiEvent::ToolResult { name, result } => (
            AppView {
                messages: s.messages.push(ChatItemView::ToolResult { name: name@, result: result@ }),
                ..s
            },
            TerminalEffect::Nothing,
        ),
        TuiEvent::Thinking { text } => (AppView { thinking: Some(text@), ..s }, TerminalEffect::Nothing),
        TuiEvent::Error { message } => (
            AppView { messages: s.messages.push(ChatItemView::Error(message@)), ..s },
            TerminalEffect::Nothing,
        ),
        TuiEvent::ShellOutput(text) => (s, TerminalEffect::Feed(text)),
        TuiEvent::Status(text) => (AppView { status: text@, ..s }, TerminalEffect::Nothing),
        TuiEvent::TurnComplete => (
            AppView { status: "Ready"@, thinking: None, ..s },
            TerminalEffect::MarkOutputEnd,
        ),
    }
}

/// The views of a list of chat items.
pub open spec fn item_views(s: Seq<ChatItem>) -> Seq<ChatItemView> {
    s.map_values(|m: ChatItem| m@)
}

impl AppState {
    /// The state at start-up: empty transcript and input, focus on the input
    /// line, status "Ready".
    pub fn new() -> (r: AppState)
        ensures
            r@.messages.len() == 0,
            r@.input.len() == 0,
            r@.cursor == 0,
            r@.focus == Focus::Input,
            r@.status == "Ready"@,
            r@.thinking is None,
            r@.running,
            r@.scroll_offset == 0,
            r@.terminal_scroll == 0,
    {
        AppState {
            messages: Vec::new(),
            input_buffer: Vec::new(),
            input_cursor: 0,
            focus: Focus::Input,
            status: "Ready".to_owned(),
            thinking: None,
            running: true,
            scroll_offset: 0,
            terminal_scroll: 0,
        }
    }

    /// The text on the input line.
    pub fn input_text(&self) -> (r: String)
        ensures
            r@ == self@.input,
    {
        string_of(self.input_buffer.as_slice())
    }

    /// Handles a key press; returns the command to send to the agent task and
    /// the requested divider change, if any. The cursor counts characters.
    pub fn handle_key(&mut self, k: KeyPress) -> (r: (Option<SoulCommand>, Option<SplitChange>))
        requires
            old(self)@.cursor <= old(self)@.input.len(),
        ensures
            final(self)@.cursor <= final(self)@.input.len(),
            ({
                let (s, c, d) = key_step(old(self)@, k);
                &&& final(self)@ == s
                &&& r.1 == d
                &&& match (r.0, c) {
                    (Some(x), Some(y)) => x@ == y,
                    (None, None) => true,
                    _ => false,
                }
            }),
    {
        let ghost s = self@;
        let editing = match self.focus {
            Focus::Input => true,
            Focus::Terminal => true,
            Focus::Chat => false,
        };
        match k.key {
            Key::Char(c) if (c == 'c' || c == 'd') && k.control => {
                self.running = false;
                (Some(SoulCommand::Quit), None)
            },
            Key::Char(c) if c == 'c' && k.alt => {
                self.status = "Interrupted".to_owned();
                (Some(SoulCommand::Interrupt), None)
            },
            Key::Tab => {
                self.focus = match self.focus {
                    Focus::Chat => Focus::Terminal,
                    Focus::Terminal => Focus::Input,
                    Focus::Input => Focus::Chat,
                };
                (None, None)
            },
            Key::BackTab => {
                self.focus = match self.focus {
                    Focus::Chat => Focus::Input,
                    Focus::Terminal => Focus::Chat,
                    Focus::Input => Focus::Terminal,
                };
                (None, None)
            },
            Key::Left if k.alt => (None, Some(SplitChange::Narrower)),
            Key::Right if k.alt => (None, Some(SplitChange::Wider)),
            Key::Up => {
                match self.focus {
                    Focus::Chat => self.scroll_offset = self.scroll_offset.saturating_add(1),
                    Focus::Terminal => self.terminal_scroll = self.terminal_scroll.saturating_add(1),
                    Focus::Input => {},
                }
                (None, None)
            },
            Key::Down => {
                match self.focus {
                    Focus::Chat => self.scroll_offset = self.scroll_offset.saturating_sub(1),
                    Focus::Terminal => self.terminal_scroll = self.terminal_scroll.saturating_sub(1),
                    Focus::Input => {},
                }
                (None, None)
            },
            Key::Enter => {
                let is_input = match self.focus {
                    Focus::Input => true,
                    _ => false,
                };
                let is_terminal = match self.focus {
                    Focus::Terminal => true,
                    _ => false,
                };
                if is_input && self.input_buffer.len() > 0 {
                    let text = string_of(self.input_buffer.as_slice());
                    let copy = string_of(self.input_buffer.as_slice());
                    self.input_buffer = Vec::new();
                    self.input_cursor = 0;
                    self.messages.push(ChatItem::User(copy));
                    proof {
                        assert(item_views(self.messages@) =~= s.messages.push(ChatItemView::User(s.input)));
                    }
                    (Some(SoulCommand::UserInput(text)), None)
                } else if is_terminal {
                    let text = string_of(self.input_buffer.as_slice());
                    self.input_buffer = Vec::new();
                    self.input_cursor = 0;
                    (Some(SoulCommand::TerminalOutput(text)), None)
                } else {
                    (None, None)
                }
            },
            Key::Char(c) => {
                if editing {
                    self.input_buffer.insert(self.input_cursor, c);
                    let _len = self.input_buffer.len();
                    self.input_cursor = self.input_cursor + 1;
                }
                (None, None)
            },
            Key::Backspace => {
                if editing && self.input_cursor > 0 {
                    self.input_cursor = self.input_cursor - 1;
                    self.input_buffer.remove(self.input_cursor);
                }
                (None, None)
            },
            Key::Delete => {
                if editing && self.input_cursor < self.input_buffer.len() {
                    self.input_buffer.remove(self.input_cursor);
                }
                (None, None)
            },
            Key::Left => {
                if editing {
                    self.input_cursor = self.input_cursor.saturating_sub(1);
                }
                (None, None)
            },
            Key::Right => {
                if editing && self.input_cursor < self.input_buffer.len() {
                    self.input_cursor = self.input_cursor + 1;
                }
                (None, None)
            },
            Key::Home => {
                self.input_cursor = 0;
                (None, None)
            },
            Key::End => {
                self.input_cursor = self.input_buffer.len();
                (None, None)
            },
            Key::Other => (None, None),
        }
    }

    /// Handles a mouse wheel movement.
    pub fn handle_scroll(&mut self, d: Scroll)
        ensures
            final(self)@ == scroll_step(old(self)@, d),
    {
        match (d, self.focus) {
            (Scroll::Down, Focus::Chat) => self.scroll_offset = self.scroll_offset.saturating_sub(3),
            (Scroll::Down, Focus::Terminal) => self.terminal_scroll = self.terminal_scroll.saturating_sub(3),
            (Scroll::Up, Focus::Chat) => self.scroll_offset = self.scroll_offset.saturating_add(3),
            (Scroll::Up, Focus::Terminal) => self.terminal_scroll = self.terminal_scroll.saturating_add(3),
            _ => {},
        }
    }

    /// Handles an event from the agent task; returns what the application
    /// must do for the terminal.
    pub fn handle_event(&mut self, e: TuiEvent) -> (r: TerminalEffect)
        ensures
            final(self)@ == event_step(old(self)@, e).0,
            r == event_step(old(self)@, e).1,
    {
        let ghost s = self@;
        let ghost ev = e;
        match e {
            TuiEvent::AssistantMessage(msg) => {
                let text = message_text_of(&msg);
                if !text.as_str().is_empty() {
                    let ghost prev = self.messages@;
                    self.messages.push(ChatItem::Assistant(text));
                    proof {
                        assert(item_views(self.messages@) =~= item_views(prev).push(ChatItemView::Assistant(message_text(msg))));
                    }
                }
                TerminalEffect::MarkOutputStart
            },
            TuiEvent::ToolCall { name, args } => {
                let ghost prev = self.messages@;
                let ghost v = ChatItemView::ToolCall { name: name@, args: args@ };
                self.messages.push(ChatItem::ToolCall { name, args });
                proof {
                    assert(item_views(self.messages@) =~= item_views(prev).push(v));
                }
                TerminalEffect::Nothing
            },
            TuiEvent::ToolResult { name, result } => {
                let ghost prev = self.messages@;
                let ghost v = ChatItemView::ToolResult { name: name@, result: result@ };
                self.messages.push(ChatItem::ToolResult { name, result });
                proof {
                    assert(item_views(self.messages@) =~= item_views(prev).push(v));
                }
                TerminalEffect::Nothing
            },
            TuiEvent::Thinking { text } => {
                self.thinking = Some(text);
                TerminalEffect::Nothing
            },
            TuiEvent::Error { message } => {
                let ghost prev = self.messages@;
                let ghost v = ChatItemView::Error(message@);
                self.messages.push(ChatItem::Error(message));
                proof {
                    assert(item_views(self.messages@) =~= item_views(prev).push(v));
                }
                TerminalEffect::Nothing
            },
            TuiEvent::ShellOutput(text) => TerminalEffect::Feed(text),
            TuiEvent::Status(text) => {
                self.status = text;
                TerminalEffect::Nothing
            },
            TuiEvent::TurnComplete => {
                self.status = "Ready".to_owned();
                self.thinking = None;
                TerminalEffect::MarkOutputEnd
            },
        }
    }
}

/// The text parts of a message, joined.
pub fn message_text_of(m: &Message) -> (r: String)
    ensures
        r@ == message_text(*m),
{
    let mut s = String::new();
    let mut i: usize = 0;
    let ghost pv = parts_view(m.content@);
    proof {
        lemma_parts_view(m.content@);
    }
    while i < m.content.len()
        invariant
            i <= m.content@.len(),
            pv == parts_view(m.content@),
            pv.len() == m.content@.len(),
            forall|k: int| 0 <= k < m.content@.len() ==> #[trigger] pv[k] == m.content@[k]@,
            s@ == joined_text(pv.take(i as int)),
        decreases m.content@.len() - i,
    {
        proof {
            assert(pv.take(i + 1).drop_last() =~= pv.take(i as int));
            assert(pv.take(i + 1).last() == m.content@[i as int]@);
        }
        match &m.content[i] {
            ContentPart::Text { text } => s.append(text.as_str()),
            _ => {},
        }
        i = i + 1;
    }
    proof {
        assert(pv.take(m.content@.len() as int) =~= pv);
    }
    s
}

} // verus!
