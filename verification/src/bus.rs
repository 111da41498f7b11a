//! The agent bus: messages, presence, and the decisions of the bus tool.
use vstd::prelude::*;
use vstd::string::StringExecFns;
use crate::message::{ContentPart, PartView, lemma_parts_view, parts_view};
use crate::table::{NamedTable, law_lookup_after_insert};
use crate::text::{join_with, str_eq, chars_of, join_chars, string_of};
use crate::tool::{ToolError, ToolResult, ToolResultView};

verus! {

broadcast use vstd::string::group_string_axioms;

/// Who a message is addressed to.
#[derive(Debug, Clone, PartialEq, Eq)]
pub enum Target {
    /// Broadcast to a topic (for example `#general`).
    Topic(String),
    /// Direct message to one agent.
    Agent(String),
}

/// A message on the bus.
#[derive(Debug, Clone, PartialEq, Eq)]
pub struct BusMessage {
    pub from: String,
    pub to: Target,
    pub body: String,
}

/// Presence information of an agent.
#[derive(Debug, PartialEq, Eq, Default)]
pub struct Presence {
    pub online: bool,
    pub current_task: Option<String>,
}

impl Clone for Presence {
    fn clone(&self) -> (r: Self)
        ensures
            r == *self,
    {
        let current_task = match &self.current_task {
            Some(t) => Some(t.clone()),
            None => None,
        };
        Presence { online: self.online, current_task }
    }
}

/// Presence of agents by name.
pub struct PresenceTable {
    table: NamedTable<Presence>,
}

impl PresenceTable {
    /// The presence recorded for `name`.
    pub closed spec fn presence(&self, name: Seq<char>) -> Option<Presence> {
        self.table.lookup(name)
    }

    /// The agents with a recorded presence, in the order they first
    /// appeared.
    pub closed spec fn names(&self) -> Seq<Seq<char>> {
        self.table.keys()
    }

    pub fn new() -> (r: PresenceTable)
        ensures
            r.names().len() == 0,
            forall|n: Seq<char>| #[trigger] r.presence(n) is None,
    {
        PresenceTable { table: NamedTable::new() }
    }

    /// Records the presence of `agent`.
    pub fn set(&mut self, agent: &str, presence: Presence)
        ensures
            final(self).presence(agent@) == Some(presence),
            forall|other: Seq<char>| other != agent@ ==> #[trigger] final(self).presence(other) == old(self).presence(other),
    {
        let _ = self.table.insert(agent, presence);
    }

    /// The presence recorded for `agent`.
    pub fn get(&self, agent: &str) -> (r: Option<&Presence>)
        ensures
            match r {
                Some(p) => self.presence(agent@) == Some(*p),
                None => self.presence(agent@) is None,
            },
    {
        self.table.get(agent)
    }

    /// Number of agents with a recorded presence.
    pub fn len(&self) -> (r: usize)
        ensures
            r == self.names().len(),
    {
        self.table.len()
    }

    /// The `i`-th agent and its presence.
    pub fn entry(&self, i: usize) -> (r: (&str, &Presence))
        requires
            i < self.names().len(),
        ensures
            r.0@ == self.names()[i as int],
            self.presence(r.0@) == Some(*r.1),
    {
        self.table.entry(i)
    }
}

/// The arguments of a bus tool call, as far as they are strings.
#[derive(Debug, Clone, PartialEq, Eq)]
pub struct BusArgs {
    pub action: Option<String>,
    pub topic: Option<String>,
    pub to: Option<String>,
    pub message: Option<String>,
    pub agent: Option<String>,
}

/// What a bus tool call asks for.
#[derive(Debug, Clone, PartialEq, Eq)]
pub enum BusRequest {
    /// Broadcast `message` to `topic`.
    Broadcast { topic: String, message: BusMessage },
    /// Send `message` to the agent `to`.
    Whisper { to: String, message: BusMessage },
    /// Report the presence of one agent.
    PresenceOf(String),
    /// Report the presence of all agents.
    PresenceList,
}

/// The text of an optional argument, empty when absent.
pub open spec fn or_empty(o: Option<String>) -> Seq<char> {
    match o {
        Some(s) => s@,
        None => Seq::empty(),
    }
}

/// Whether a planned request is what a call with `args` asks for.
pub open spec fn bus_plan(args: BusArgs, r: Result<BusRequest, ToolError>) -> bool {
    match args.action {
        None => r matches Err(e) && e.message@ == "missing 'action' argument"@ && e.brief@ == "bad args"@,
        Some(a) => if a@ == "broadcast"@ {
            match args.topic {
                None => r matches Err(e) && e.message@ == "missing 'topic' for broadcast"@ && e.brief@
                    == "bad args"@,
                Some(t) => r matches Ok(BusRequest::Broadcast { topic, message }) && topic@ == t@
                    && message.from@ == "self"@ && message.to == Target::Topic(t)
                    && message.body@ == or_empty(args.message),
            }
        } else if a@ == "whisper"@ {
            match args.to {
                None => r matches Err(e) && e.message@ == "missing 'to' for whisper"@ && e.brief@
                    == "bad args"@,
                Some(t) => r matches Ok(BusRequest::Whisper { to, message }) && to@ == t@
                    && message.from@ == "self"@ && message.to == Target::Agent(t)
                    && message.body@ == or_empty(args.message),
            }
        } else if a@ == "presence"@ {
            match args.agent {
                Some(n) => r matches Ok(BusRequest::PresenceOf(name)) && name@ == n@,
                None => r matches Ok(BusRequest::PresenceList),
            }
        } else {
            r matches Err(e) && e.message@ == "unknown bus action: "@ + a@ && e.brief@ == "bad action"@
        },
    }
}

fn bad_args(message: &str) -> (r: ToolError)
    ensures
        r.message@ == message@,
        r.brief@ == "bad args"@,
{
    ToolError { message: message.to_owned(), brief: "bad args".to_owned() }
}

fn text_or_empty(o: Option<String>) -> (r: String)
    ensures
        r@ == or_empty(o),
{
    match o {
        Some(s) => s,
        None => String::new(),
    }
}

/// Decides what a bus tool call asks for, or why it cannot be done.
pub fn plan_bus_call(args: BusArgs) -> (r: Result<BusRequest, ToolError>)
    ensures
        bus_plan(args, r),
{
    let ghost a0 = args;
    let BusArgs { action, topic, to, message, agent } = args;
    let action = match action {
        Some(a) => a,
        None => return Err(bad_args("missing 'action' argument")),
    };
    if str_eq(action.as_str(), "broadcast") {
        match topic {
            None => Err(bad_args("missing 'topic' for broadcast")),
            Some(t) => {
                let body = text_or_empty(message);
                let msg = BusMessage { from: "self".to_owned(), to: Target::Topic(t.clone()), body };
                Ok(BusRequest::Broadcast { topic: t, message: msg })
            },
        }
    } else if str_eq(action.as_str(), "whisper") {
        match to {
            None => Err(bad_args("missing 'to' for whisper")),
            Some(t) => {
                let body = text_or_empty(message);
                let msg = BusMessage { from: "self".to_owned(), to: Target::Agent(t.clone()), body };
                Ok(BusRequest::Whisper { to: t, message: msg })
            },
        }
    } else if str_eq(action.as_str(), "presence") {
        match agent {
            Some(n) => Ok(BusRequest::PresenceOf(n)),
            None => Ok(BusRequest::PresenceList),
        }
    } else {
        let mut m = "unknown bus action: ".to_owned();
        m.append(action.as_str());
        Err(ToolError { message: m, brief: "bad action".to_owned() })
    }
}

/// A successful tool result holding one text.
pub fn text_result(text: String) -> (r: ToolResult)
    ensures
        r@ == ToolResultView::Success(seq![PartView::Text(text@)]),
{
    let v = vec![ContentPart::Text { text }];
    proof {
        lemma_parts_view(v@);
        assert(parts_view(v@) =~= seq![v@[0]@]);
    }
    ToolResult::Success { output: v }
}

/// The reply to a broadcast to `topic`.
pub fn broadcast_reply(topic: &str) -> (r: ToolResult)
    ensures
        r@ == ToolResultView::Success(seq![PartView::Text("Broadcasted to "@ + topic@)]),
{
    let mut t = "Broadcasted to ".to_owned();
    t.append(topic);
    text_result(t)
}

/// The reply to a direct message to `to`.
pub fn whisper_reply(to: &str) -> (r: ToolResult)
    ensures
        r@ == ToolResultView::Success(seq![PartView::Text("Whispered to "@ + to@)]),
{
    let mut t = "Whispered to ".to_owned();
    t.append(to);
    text_result(t)
}

/// The debug form of a string (`{:?}`): quoted, with escapes.
pub uninterp spec fn debug_text(s: Seq<char>) -> Seq<char>;

/// Whether every character of `s` is printable ASCII (space to `~`) other
/// than a double quote or a backslash: a text `Debug` writes unescaped.
pub open spec fn plain_printable(s: Seq<char>) -> bool {
    forall|i: int|
        0 <= i < s.len() ==> {
            let c = #[trigger] s[i];
            ' ' <= c && c <= '~' && c != '"' && c != '\\'
        }
}

/// The debug form of a string, as std's `Debug` for `str` writes it: the
/// text in double quotes, with escapes; a plain printable text is only
/// quoted.
#[verifier::external_body]
pub(crate) fn debug_str(s: &str) -> (r: String)
    ensures
        r@ == debug_text(s@),
        plain_printable(s@) ==> r@ == seq!['"'] + s@ + seq!['"'],
{
    format!("{:?}", s)
}

/// The text of a boolean.
pub open spec fn bool_text(b: bool) -> Seq<char> {
    if b { "true"@ } else { "false"@ }
}

/// The debug form of an optional task.
pub open spec fn task_text(t: Option<String>) -> Seq<char> {
    match t {
        Some(s) => "Some("@ + debug_text(s@) + ")"@,
        None => "None"@,
    }
}

/// One line of a presence report.
pub open spec fn presence_line(name: Seq<char>, p: Presence) -> Seq<char> {
    name + ": online="@ + bool_text(p.online) + ", task="@ + task_text(p.current_task)
}

fn presence_line_of(name: &str, p: &Presence) -> (r: String)
    ensures
        r@ == presence_line(name@, *p),
{
    let mut s = name.to_owned();
    s.append(": online=");
    if p.online {
        s.append("true");
    } else {
        s.append("false");
    }
    s.append(", task=");
    match &p.current_task {
        Some(t) => {
            s.append("Some(");
            s.append(debug_str(t.as_str()).as_str());
            s.append(")");
        },
        None => s.append("None"),
    }
    s
}

/// The reply to a presence query for one agent.
pub fn presence_reply(name: &str, presence: Option<&Presence>) -> (r: ToolResult)
    ensures
        r@ == ToolResultView::Success(
            seq![
                PartView::Text(
                    match presence {
                        Some(p) => presence_line(name@, *p),
                        None => name@ + ": unknown"@,
                    },
                ),
            ],
        ),
{
    match presence {
        Some(p) => text_result(presence_line_of(name, p)),
        None => {
            let mut t = name.to_owned();
            t.append(": unknown");
            text_result(t)
        },
    }
}

/// The lines of a full presence report, in the table's order.
pub open spec fn presence_lines(table: PresenceTable) -> Seq<Seq<char>> {
    table.names().map_values(|n: Seq<char>| presence_line(n, table.presence(n)->0))
}

/// The reply to a presence query for all agents.
pub fn presence_list_reply(table: &PresenceTable) -> (r: ToolResult)
    ensures
        r@ == ToolResultView::Success(
            seq![
                PartView::Text(
                    if table.names().len() == 0 {
                        "No agents online"@
                    } else {
                        join_with(presence_lines(*table), "\n"@)
                    },
                ),
            ],
        ),
{
    let n = table.len();
    if n == 0 {
        return text_result("No agents online".to_owned());
    }
    let mut lines: Vec<Vec<char>> = Vec::new();
    let mut i: usize = 0;
    let ghost all = presence_lines(*table);
    while i < n
        invariant
            i <= n,
            n == table.names().len(),
            all == presence_lines(*table),
            lines@.map_values(|v: Vec<char>| v@) == all.take(i as int),
        decreases n - i,
    {
        let (name, p) = table.entry(i);
        let line = presence_line_of(name, p);
        let c = chars_of(line.as_str());
        let ghost prev = lines@;
        let ghost cv = c@;
        lines.push(c);
        proof {
            assert(cv == all[i as int]);
            assert(lines@.map_values(|v: Vec<char>| v@) =~= prev.map_values(|v: Vec<char>| v@).push(cv));
            assert(all.take(i + 1) =~= all.take(i as int).push(all[i as int]));
        }
        i = i + 1;
    }
    proof {
        assert(all.take(n as int) =~= all);
    }
    let nl = chars_of("\n");
    let j = join_chars(&lines, nl.as_slice());
    text_result(string_of(j.as_slice()))
}

/// Declaration of the sending half of a tokio broadcast channel.
#[verifier::external_type_specification]
#[verifier::external_body]
#[verifier::reject_recursive_types(T)]
pub struct ExBroadcastSender<T>(tokio::sync::broadcast::Sender<T>);

/// Declaration of the receiving half of a tokio broadcast channel.
#[verifier::external_type_specification]
#[verifier::external_body]
#[verifier::reject_recursive_types(T)]
pub struct ExBroadcastReceiver<T>(tokio::sync::broadcast::Receiver<T>);

/// The messages sent through this sender (`Sender::send`), oldest first.
/// Each is offered to the receivers subscribed to the channel at the time
/// it was sent.
pub uninterp spec fn sent_on(tx: tokio::sync::broadcast::Sender<BusMessage>) -> Seq<BusMessage>;

/// A new tokio broadcast channel that holds up to `capacity` unreceived
/// messages (`broadcast::channel`); its sender is kept, with nothing sent
/// through it yet, and its first receiver dropped. tokio asserts that the
/// capacity is positive and at most `usize::MAX / 2`.
#[verifier::external_body]
fn open_channel(capacity: usize) -> (r: tokio::sync::broadcast::Sender<BusMessage>)
    requires
        0 < capacity <= usize::MAX / 2,
    ensures
        sent_on(r) == Seq::<BusMessage>::empty(),
{
    tokio::sync::broadcast::channel(capacity).0
}

/// A new receiver of the channel (`Sender::subscribe`), which is offered the
/// messages sent after this call.
#[verifier::external_body]
fn subscribe(tx: &tokio::sync::broadcast::Sender<BusMessage>) -> tokio::sync::broadcast::Receiver<BusMessage> {
    tx.subscribe()
}

/// Sends `msg` on the channel (`Sender::send`), to every receiver
/// subscribed to it: `msg` is the latest message sent through `tx`. Sending
/// fails only when the channel has no receivers, and that failure is
/// ignored, as the bus does.
#[verifier::external_body]
fn deliver(tx: &mut tokio::sync::broadcast::Sender<BusMessage>, msg: BusMessage)
    ensures
        sent_on(*final(tx)) == sent_on(*old(tx)).push(msg),
{
    let _ = tx.send(msg);
}

/// How many unreceived messages a topic or mailbox channel holds.
pub const CHANNEL_CAPACITY: usize = 256;

/// A log after `msg` is sent on it, when there is a channel.
pub open spec fn log_after_send(log: Option<Seq<BusMessage>>, msg: BusMessage) -> Option<Seq<BusMessage>> {
    match log {
        Some(l) => Some(l.push(msg)),
        None => None,
    }
}

/// `after` is `before` with `msg` sent on the channel of `topic`, when the
/// topic has one: nothing else is sent, and topics, mailboxes and presence
/// stay as they are.
pub open spec fn sent_to_topic(before: Bus, after: Bus, topic: Seq<char>, msg: BusMessage) -> bool {
    &&& after.topic_log(topic) == log_after_send(before.topic_log(topic), msg)
    &&& forall|t: Seq<char>| t != topic ==> #[trigger] after.topic_log(t) == before.topic_log(t)
    &&& forall|a: Seq<char>| #[trigger] after.mailbox_log(a) == before.mailbox_log(a)
    &&& unchanged_entries(before, after)
}

/// `after` is `before` with `msg` sent to the mailbox of `agent`, when it
/// has one: nothing else is sent, and topics, mailboxes and presence stay
/// as they are.
pub open spec fn sent_to_mailbox(before: Bus, after: Bus, agent: Seq<char>, msg: BusMessage) -> bool {
    &&& after.mailbox_log(agent) == log_after_send(before.mailbox_log(agent), msg)
    &&& forall|a: Seq<char>| a != agent ==> #[trigger] after.mailbox_log(a) == before.mailbox_log(a)
    &&& forall|t: Seq<char>| #[trigger] after.topic_log(t) == before.topic_log(t)
    &&& unchanged_entries(before, after)
}

/// The same topics, mailboxes and presence.
pub open spec fn unchanged_entries(before: Bus, after: Bus) -> bool {
    &&& after.topics() == before.topics()
    &&& after.mailboxes() == before.mailboxes()
    &&& after.present() == before.present()
    &&& after.table() == before.table()
    &&& forall|a: Seq<char>| #[trigger] after.presence_of(a) == before.presence_of(a)
}

/// The agent-to-agent messaging bus: topics agents broadcast on, mailboxes
/// for direct messages, and the agents' presence.
pub struct Bus {
    topics: NamedTable<tokio::sync::broadcast::Sender<BusMessage>>,
    mailboxes: NamedTable<tokio::sync::broadcast::Sender<BusMessage>>,
    presence: PresenceTable,
}

impl Bus {
    /// The topics that have a channel, in the order they were made.
    pub closed spec fn topics(&self) -> Seq<Seq<char>> {
        self.topics.keys()
    }

    /// The agents that have a mailbox, in the order they were made.
    pub closed spec fn mailboxes(&self) -> Seq<Seq<char>> {
        self.mailboxes.keys()
    }

    /// The messages sent on the channel of `topic`, when it has one.
    pub closed spec fn topic_log(&self, topic: Seq<char>) -> Option<Seq<BusMessage>> {
        match self.topics.lookup(topic) {
            Some(tx) => Some(sent_on(tx)),
            None => None,
        }
    }

    /// The messages sent to the mailbox of `agent`, when it has one.
    pub closed spec fn mailbox_log(&self, agent: Seq<char>) -> Option<Seq<BusMessage>> {
        match self.mailboxes.lookup(agent) {
            Some(tx) => Some(sent_on(tx)),
            None => None,
        }
    }

    /// The presence recorded for an agent.
    pub closed spec fn presence_of(&self, agent: Seq<char>) -> Option<Presence> {
        self.presence.presence(agent)
    }

    /// The agents with a recorded presence, in the order they first
    /// appeared.
    pub closed spec fn present(&self) -> Seq<Seq<char>> {
        self.presence.names()
    }

    /// A bus with no topics, mailboxes or presence.
    pub fn new() -> (r: Bus)
        ensures
            r.topics().len() == 0,
            r.mailboxes().len() == 0,
            r.present().len() == 0,
            forall|a: Seq<char>| #[trigger] r.presence_of(a) is None,
            forall|t: Seq<char>| #[trigger] r.topic_log(t) is None,
            forall|a: Seq<char>| #[trigger] r.mailbox_log(a) is None,
    {
        Bus { topics: NamedTable::new(), mailboxes: NamedTable::new(), presence: PresenceTable::new() }
    }

    /// Joins a topic, making it when it does not exist yet, and returns a
    /// receiver of its broadcasts.
    pub fn join_topic(&mut self, topic: &str) -> (r: tokio::sync::broadcast::Receiver<BusMessage>)
        ensures
            final(self).topics() == if old(self).topics().contains(topic@) {
                old(self).topics()
            } else {
                old(self).topics().push(topic@)
            },
            final(self).mailboxes() == old(self).mailboxes(),
            final(self).present() == old(self).present(),
            forall|a: Seq<char>| #[trigger] final(self).presence_of(a) == old(self).presence_of(a),
            final(self).topic_log(topic@) == if old(self).topics().contains(topic@) {
                old(self).topic_log(topic@)
            } else {
                Some(Seq::<BusMessage>::empty())
            },
            forall|t: Seq<char>| t != topic@ ==> #[trigger] final(self).topic_log(t) == old(self).topic_log(t),
            forall|a: Seq<char>| #[trigger] final(self).mailbox_log(a) == old(self).mailbox_log(a),
    {
        proof {
            self.topics.lemma_lengths();
        }
        if !self.topics.contains(topic) {
            let tx = open_channel(CHANNEL_CAPACITY);
            let _ = self.topics.insert(topic, tx);
        }
        proof {
            assert(old(self).topics.index_of(topic@) is Some <==> old(self).topics().contains(topic@)) by {
                if old(self).topics().contains(topic@) {
                    let i = choose|i: int| 0 <= i < old(self).topics().len() && old(self).topics()[i] == topic@;
                    assert(old(self).topics.keys()[i] == topic@);
                }
            }
        }
        match self.topics.get(topic) {
            Some(tx) => subscribe(tx),
            None => {
                proof {
                    assert(false);
                }
                let tx = open_channel(CHANNEL_CAPACITY);
                subscribe(&tx)
            },
        }
    }

    /// Leaves a topic. The bus keeps no state per subscriber (a subscriber
    /// leaves by dropping its receiver), so nothing changes.
    pub fn leave_topic(&self, topic: &str) {
    }

    /// Registers a mailbox for direct messages to `agent`, making it when
    /// it does not exist yet, and returns a receiver of its messages.
    pub fn register_mailbox(&mut self, agent: &str) -> (r: tokio::sync::broadcast::Receiver<BusMessage>)
        ensures
            final(self).mailboxes() == if old(self).mailboxes().contains(agent@) {
                old(self).mailboxes()
            } else {
                old(self).mailboxes().push(agent@)
            },
            final(self).topics() == old(self).topics(),
            final(self).present() == old(self).present(),
            forall|a: Seq<char>| #[trigger] final(self).presence_of(a) == old(self).presence_of(a),
            final(self).mailbox_log(agent@) == if old(self).mailboxes().contains(agent@) {
                old(self).mailbox_log(agent@)
            } else {
                Some(Seq::<BusMessage>::empty())
            },
            forall|a: Seq<char>| a != agent@ ==> #[trigger] final(self).mailbox_log(a) == old(self).mailbox_log(a),
            forall|t: Seq<char>| #[trigger] final(self).topic_log(t) == old(self).topic_log(t),
    {
        if !self.mailboxes.contains(agent) {
            let tx = open_channel(CHANNEL_CAPACITY);
            let _ = self.mailboxes.insert(agent, tx);
        }
        proof {
            assert(old(self).mailboxes.index_of(agent@) is Some <==> old(self).mailboxes().contains(agent@)) by {
                if old(self).mailboxes().contains(agent@) {
                    let i = choose|i: int| 0 <= i < old(self).mailboxes().len() && old(self).mailboxes()[i] == agent@;
                    assert(old(self).mailboxes.keys()[i] == agent@);
                }
            }
        }
        match self.mailboxes.get(agent) {
            Some(tx) => subscribe(tx),
            None => {
                proof {
                    assert(false);
                }
                let tx = open_channel(CHANNEL_CAPACITY);
                subscribe(&tx)
            },
        }
    }

    /// Removes the mailbox of `agent`, if it has one.
    pub fn unregister_mailbox(&mut self, agent: &str)
        ensures
            !final(self).mailboxes().contains(agent@),
            forall|a: Seq<char>| a != agent@ ==> (#[trigger] final(self).mailboxes().contains(a)
                <==> old(self).mailboxes().contains(a)),
            final(self).topics() == old(self).topics(),
            final(self).present() == old(self).present(),
            forall|a: Seq<char>| #[trigger] final(self).presence_of(a) == old(self).presence_of(a),
            final(self).mailbox_log(agent@) is None,
            forall|a: Seq<char>| a != agent@ ==> #[trigger] final(self).mailbox_log(a) == old(self).mailbox_log(a),
            forall|t: Seq<char>| #[trigger] final(self).topic_log(t) == old(self).topic_log(t),
    {
        let _ = self.mailboxes.remove(agent);
    }

    /// Sends `msg` to the subscribers of `topic`; whether the topic exists
    /// (a message to a topic nobody made is dropped).
    pub fn broadcast(&mut self, topic: &str, msg: BusMessage) -> (r: bool)
        ensures
            r == old(self).topics().contains(topic@),
            r == old(self).topic_log(topic@) is Some,
            sent_to_topic(*old(self), *final(self), topic@, msg),
    {
        proof {
            self.topics.lemma_lengths();
        }
        let ghost before = self.topics;
        match self.topics.get_mut(topic) {
            Some(tx) => {
                let ghost i = before.index_of(topic@)->0;
                deliver(tx, msg);
                let ghost sent = *tx;
                proof {
                    assert(before.keys()[i] == topic@);
                    assert(before.lookup(topic@) == Some(before.values()[i]));
                }
                proof {
                    assert(self.topics.keys() == before.keys());
                    assert(self.topics.values() == before.values().update(i, sent));
                    law_lookup_after_insert(before, self.topics, topic@, sent, topic@.push('x'));
                    assert forall|t: Seq<char>| t != topic@ implies #[trigger] self.topic_log(t) == old(self).topic_log(t) by {
                        law_lookup_after_insert(before, self.topics, topic@, sent, t);
                    }
                }
                true
            },
            None => {
                assert(!before.keys().contains(topic@)) by {
                    if before.keys().contains(topic@) {
                        let i = choose|i: int| 0 <= i < before.keys().len() && before.keys()[i] == topic@;
                        assert(before.keys()[i] == topic@);
                    }
                }
                false
            },
        }
    }

    /// Sends `msg` to the mailbox of `to`; whether it has one (a message
    /// to an agent without a mailbox is dropped).
    pub fn whisper(&mut self, to: &str, msg: BusMessage) -> (r: bool)
        ensures
            r == old(self).mailboxes().contains(to@),
            r == old(self).mailbox_log(to@) is Some,
            sent_to_mailbox(*old(self), *final(self), to@, msg),
    {
        proof {
            self.mailboxes.lemma_lengths();
        }
        let ghost before = self.mailboxes;
        match self.mailboxes.get_mut(to) {
            Some(tx) => {
                let ghost i = before.index_of(to@)->0;
                deliver(tx, msg);
                let ghost sent = *tx;
                proof {
                    assert(before.keys()[i] == to@);
                    assert(before.lookup(to@) == Some(before.values()[i]));
                }
                proof {
                    assert(self.mailboxes.keys() == before.keys());
                    assert(self.mailboxes.values() == before.values().update(i, sent));
                    law_lookup_after_insert(before, self.mailboxes, to@, sent, to@.push('x'));
                    assert forall|a: Seq<char>| a != to@ implies #[trigger] self.mailbox_log(a) == old(self).mailbox_log(a) by {
                        law_lookup_after_insert(before, self.mailboxes, to@, sent, a);
                    }
                }
                true
            },
            None => {
                assert(!before.keys().contains(to@)) by {
                    if before.keys().contains(to@) {
                        let i = choose|i: int| 0 <= i < before.keys().len() && before.keys()[i] == to@;
                        assert(before.keys()[i] == to@);
                    }
                }
                false
            },
        }
    }

    /// Records the presence of `agent`.
    pub fn set_presence(&mut self, agent: &str, presence: Presence)
        ensures
            final(self).presence_of(agent@) == Some(presence),
            forall|a: Seq<char>| a != agent@ ==> #[trigger] final(self).presence_of(a) == old(self).presence_of(a),
            final(self).topics() == old(self).topics(),
            final(self).mailboxes() == old(self).mailboxes(),
            forall|t: Seq<char>| #[trigger] final(self).topic_log(t) == old(self).topic_log(t),
            forall|a: Seq<char>| #[trigger] final(self).mailbox_log(a) == old(self).mailbox_log(a),
    {
        self.presence.set(agent, presence);
    }

    /// The presence recorded for `agent`.
    pub fn get_presence(&self, agent: &str) -> (r: Option<Presence>)
        ensures
            r == self.presence_of(agent@),
    {
        match self.presence.get(agent) {
            Some(p) => Some(p.clone()),
            None => None,
        }
    }

    /// The presence table.
    pub closed spec fn table(&self) -> PresenceTable {
        self.presence
    }

    /// The presence table.
    pub fn presence_table(&self) -> (r: &PresenceTable)
        ensures
            *r == self.table(),
            r.names() == self.present(),
            forall|a: Seq<char>| #[trigger] r.presence(a) == self.presence_of(a),
    {
        &self.presence
    }

    /// Every agent with a recorded presence, with it, in the order they
    /// first appeared.
    pub fn list_presence(&self) -> (r: Vec<(String, Presence)>)
        ensures
            r@.len() == self.present().len(),
            forall|i: int| 0 <= i < r@.len() ==> (#[trigger] r@[i]).0@ == self.present()[i] && self.presence_of(
                r@[i].0@,
            ) == Some(r@[i].1),
    {
        let mut out: Vec<(String, Presence)> = Vec::new();
        let mut i: usize = 0;
        while i < self.presence.len()
            invariant
                i <= self.present().len(),
                out@.len() == i,
                forall|k: int| 0 <= k < out@.len() ==> (#[trigger] out@[k]).0@ == self.present()[k]
                    && self.presence_of(out@[k].0@) == Some(out@[k].1),
            decreases self.present().len() - i,
        {
            let (name, p) = self.presence.entry(i);
            out.push((name.to_string(), p.clone()));
            i = i + 1;
        }
        out
    }
}

/// Carries out a bus tool request on `bus` and gives the tool's reply: a
/// broadcast or whisper is sent (to whoever listens) and acknowledged, a
/// presence query is answered from the presence table.
pub fn run_bus_request(bus: &mut Bus, request: BusRequest) -> (r: ToolResult)
    ensures
        r@ == ToolResultView::Success(
            seq![
                PartView::Text(
                    match request {
                        BusRequest::Broadcast { topic, .. } => "Broadcasted to "@ + topic@,
                        BusRequest::Whisper { to, .. } => "Whispered to "@ + to@,
                        BusRequest::PresenceOf(name) => match old(bus).presence_of(name@) {
                            Some(p) => presence_line(name@, p),
                            None => name@ + ": unknown"@,
                        },
                        BusRequest::PresenceList => if old(bus).present().len() == 0 {
                            "No agents online"@
                        } else {
                            join_with(presence_lines(old(bus).table()), "\n"@)
                        },
                    },
                ),
            ],
        ),
        match request {
            BusRequest::Broadcast { topic, message } => sent_to_topic(*old(bus), *final(bus), topic@, message),
            BusRequest::Whisper { to, message } => sent_to_mailbox(*old(bus), *final(bus), to@, message),
            _ => *final(bus) == *old(bus),
        },
{
    match request {
        BusRequest::Broadcast { topic, message } => {
            let _ = bus.broadcast(topic.as_str(), message);
            broadcast_reply(topic.as_str())
        },
        BusRequest::Whisper { to, message } => {
            let _ = bus.whisper(to.as_str(), message);
            whisper_reply(to.as_str())
        },
        BusRequest::PresenceOf(name) => {
            let p = bus.get_presence(name.as_str());
            match &p {
                Some(q) => presence_reply(name.as_str(), Some(q)),
                None => presence_reply(name.as_str(), None),
            }
        },
        BusRequest::PresenceList => presence_list_reply(bus.presence_table()),
    }
}

} // verus!
