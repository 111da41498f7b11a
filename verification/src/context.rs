//! Conversation context: message history, token accounting and checkpoints.
use vstd::prelude::*;
use vstd::utf8::encode_utf8;
use crate::clock::now_micros;
use crate::text::utf8_len;
use crate::message::{ContentPart, Message, MessageView, PartView, lemma_parts_view, part_view, parts_view};

verus! {

/// A saved position in the history that the context can be reverted to.
#[derive(Debug, Clone, Copy, PartialEq, Eq)]
pub struct Checkpoint {
    pub history_len: usize,
    pub token_count: usize,
    pub timestamp: i64,
}

/// The error of `Context::revert_to` for an unknown checkpoint id; `max` is
/// the largest valid id (0 when there is none).
#[derive(Debug, Clone, Copy, PartialEq, Eq, Structural)]
pub struct InvalidCheckpoint {
    pub id: usize,
    pub max: usize,
}

/// The conversation context of an agent.
#[derive(Debug)]
pub struct Context {
    history: Vec<Message>,
    token_count: usize,
    max_tokens: usize,
    checkpoints: Vec<Checkpoint>,
}

/// The abstract value of a context.
pub struct ContextView {
    pub history: Seq<MessageView>,
    pub token_count: nat,
    pub max_tokens: nat,
    pub checkpoints: Seq<Checkpoint>,
}

/// The views of a list of messages.
pub open spec fn views_of(s: Seq<Message>) -> Seq<MessageView> {
    s.map_values(|m: Message| m@)
}

/// Number of UTF-8 bytes of a part's text (0 for other parts).
pub open spec fn part_text_len(p: PartView) -> nat {
    match p {
        PartView::Text(t) => encode_utf8(t).len(),
        _ => 0,
    }
}

/// Total number of UTF-8 bytes of the text parts of a content list.
pub open spec fn content_text_len(s: Seq<PartView>) -> nat
    decreases s.len(),
{
    if s.len() == 0 {
        0
    } else {
        content_text_len(s.drop_last()) + part_text_len(s.last())
    }
}

/// The token estimate of a message: a quarter of the UTF-8 length of its
/// text parts, rounded down.
pub open spec fn estimated_tokens(m: MessageView) -> nat {
    content_text_len(m.content) / 4
}

/// Whether appending (or inserting) `m` into `v` stays within machine limits.
pub open spec fn can_add(v: ContextView, m: MessageView) -> bool {
    &&& content_text_len(m.content) <= usize::MAX
    &&& v.token_count + estimated_tokens(m) <= usize::MAX
}

/// Whether a message whose content is the single text `text` can be added to
/// `v` within machine limits.
pub open spec fn text_fits(v: ContextView, text: Seq<char>) -> bool {
    &&& content_text_len(seq![PartView::Text(text)]) <= usize::MAX
    &&& v.token_count + content_text_len(seq![PartView::Text(text)]) / 4 <= usize::MAX
}

/// The context after appending `m`.
pub open spec fn appended(v: ContextView, m: MessageView) -> ContextView {
    ContextView {
        history: v.history.push(m),
        token_count: v.token_count + estimated_tokens(m),
        ..v
    }
}

/// The context after inserting `m` at `pos`.
pub open spec fn inserted(v: ContextView, pos: int, m: MessageView) -> ContextView {
    ContextView {
        history: v.history.insert(pos, m),
        token_count: v.token_count + estimated_tokens(m),
        ..v
    }
}

/// The context after `clear`: no history, no tokens, checkpoints kept.
pub open spec fn cleared(v: ContextView) -> ContextView {
    ContextView { history: Seq::empty(), token_count: 0, ..v }
}

/// `after` is `before` with a new checkpoint, numbered `id`, of its current
/// history length and token count.
pub open spec fn checkpoint_taken(before: ContextView, after: ContextView, id: nat) -> bool {
    &&& id == before.checkpoints.len()
    &&& after.history == before.history
    &&& after.token_count == before.token_count
    &&& after.max_tokens == before.max_tokens
    &&& after.checkpoints.len() == before.checkpoints.len() + 1
    &&& after.checkpoints.take(id as int) == before.checkpoints
    &&& after.checkpoints[id as int].history_len == before.history.len()
    &&& after.checkpoints[id as int].token_count == before.token_count
}

/// The outcome of reverting `v` to checkpoint `id`: the history cut back to
/// the checkpoint's length, its token count restored, and the later
/// checkpoints dropped; `None` when there is no such checkpoint.
pub open spec fn reverted(v: ContextView, id: nat) -> Option<ContextView> {
    if id < v.checkpoints.len() {
        let cp = v.checkpoints[id as int];
        let keep = if cp.history_len < v.history.len() { cp.history_len as int } else { v.history.len() as int };
        Some(ContextView {
            history: v.history.take(keep),
            token_count: cp.token_count as nat,
            max_tokens: v.max_tokens,
            checkpoints: v.checkpoints.take(id + 1int),
        })
    } else {
        None
    }
}

/// The error reported for an unknown checkpoint id.
pub open spec fn invalid_checkpoint(v: ContextView, id: usize) -> InvalidCheckpoint {
    InvalidCheckpoint {
        id,
        max: if v.checkpoints.len() == 0 { 0 } else { (v.checkpoints.len() - 1) as usize },
    }
}

impl View for Context {
    type V = ContextView;

    closed spec fn view(&self) -> ContextView {
        ContextView {
            history: views_of(self.history@),
            token_count: self.token_count as nat,
            max_tokens: self.max_tokens as nat,
            checkpoints: self.checkpoints@,
        }
    }
}

/// The counters of a context fit in machine integers.
pub proof fn lemma_context_bounds(c: &Context)
    ensures
        c@.token_count <= usize::MAX,
        c@.max_tokens <= usize::MAX,
{
}

/// The token estimate of a message.
pub fn estimate_tokens(msg: &Message) -> (r: usize)
    requires
        content_text_len(msg@.content) <= usize::MAX,
    ensures
        r == estimated_tokens(msg@),
{
    let mut total: usize = 0;
    let mut i: usize = 0;
    let ghost parts = msg.content@;
    while i < msg.content.len()
        invariant
            i <= parts.len(),
            parts == msg.content@,
            content_text_len(msg@.content) <= usize::MAX,
            total == content_text_len(parts_view(parts.take(i as int))),
        decreases parts.len() - i,
    {
        proof {
            assert(parts.take(i + 1).drop_last() =~= parts.take(i as int));
            lemma_parts_view(parts.take(i + 1));
            lemma_parts_view(parts.take(i as int));
            assert(parts_view(parts.take(i + 1)).drop_last() =~= parts_view(parts.take(i as int)));
            lemma_parts_view(parts);
            lemma_text_len_prefix(parts_view(parts), i as int + 1);
            assert(parts_view(parts).take(i + 1) =~= parts_view(parts.take(i + 1)));
        }
        match &msg.content[i] {
            ContentPart::Text { text } => {
                total = total + text.as_str().len();
            },
            _ => {},
        }
        i = i + 1;
    }
    proof {
        assert(parts.take(parts.len() as int) =~= parts);
    }
    total / 4
}

/// The text length of a prefix is at most that of the whole list.
proof fn lemma_text_len_prefix(s: Seq<PartView>, n: int)
    requires
        0 <= n <= s.len(),
    ensures
        content_text_len(s.take(n)) <= content_text_len(s),
    decreases s.len(),
{
    if n < s.len() {
        assert(s.drop_last().take(n) =~= s.take(n));
        lemma_text_len_prefix(s.drop_last(), n);
    } else {
        assert(s.take(n) =~= s);
    }
}

impl Context {
    /// An empty context with the given token budget.
    pub fn new(max_tokens: usize) -> (r: Context)
        ensures
            r@.history.len() == 0,
            r@.token_count == 0,
            r@.max_tokens == max_tokens,
            r@.checkpoints.len() == 0,
    {
        Context { history: Vec::new(), token_count: 0, max_tokens, checkpoints: Vec::new() }
    }

    /// Appends a message, adding its token estimate to the count.
    pub fn append_message(&mut self, message: Message)
        requires
            can_add(old(self)@, message@),
        ensures
            final(self)@ == appended(old(self)@, message@),
    {
        let estimated = estimate_tokens(&message);
        self.token_count = self.token_count + estimated;
        let ghost m = message;
        self.history.push(message);
        proof {
            assert(views_of(self.history@) =~= views_of(old(self).history@).push(m@));
        }
    }

    /// Inserts a message at position `pos`, adding its token estimate to the
    /// count.
    pub fn insert_message(&mut self, pos: usize, message: Message)
        requires
            pos <= old(self)@.history.len(),
            can_add(old(self)@, message@),
        ensures
            final(self)@ == inserted(old(self)@, pos as int, message@),
    {
        let estimated = estimate_tokens(&message);
        self.token_count = self.token_count + estimated;
        let ghost m = message;
        self.history.insert(pos, message);
        proof {
            assert(views_of(self.history@) =~= views_of(old(self).history@).insert(pos as int, m@));
        }
    }

    /// Drops the whole history and resets the token count; checkpoints are
    /// kept.
    pub fn clear(&mut self)
        ensures
            final(self)@ == cleared(old(self)@),
    {
        self.history.clear();
        self.token_count = 0;
        proof {
            assert(views_of(self.history@) =~= Seq::<MessageView>::empty());
        }
    }

    /// Whether `m` can be appended or inserted without overflowing the
    /// token count.
    pub fn can_add_message(&self, m: &Message) -> (r: bool)
        ensures
            r == can_add(self@, m@),
    {
        fits(self, m)
    }

    /// The current token estimate.
    pub fn token_count(&self) -> (r: usize)
        ensures
            r == self@.token_count,
    {
        self.token_count
    }

    /// The token budget.
    pub fn max_tokens(&self) -> (r: usize)
        ensures
            r == self@.max_tokens,
    {
        self.max_tokens
    }

    /// The history, oldest message first.
    pub fn history(&self) -> (r: &[Message])
        ensures
            views_of(r@) == self@.history,
    {
        self.history.as_slice()
    }

    /// Number of checkpoints taken and not pruned.
    pub fn checkpoint_count(&self) -> (r: usize)
        ensures
            r == self@.checkpoints.len(),
    {
        self.checkpoints.len()
    }

    /// Records a checkpoint of the current history length and token count and
    /// returns its id.
    pub fn checkpoint(&mut self) -> (id: usize)
        requires
            old(self)@.checkpoints.len() < usize::MAX,
        ensures
            checkpoint_taken(old(self)@, final(self)@, id as nat),
    {
        let id = self.checkpoints.len();
        let cp = Checkpoint {
            history_len: self.history.len(),
            token_count: self.token_count,
            timestamp: now_micros(),
        };
        self.checkpoints.push(cp);
        proof {
            assert(self.checkpoints@.take(id as int) =~= old(self).checkpoints@);
        }
        id
    }

    /// Reverts to checkpoint `checkpoint_id`: the history is cut back to the
    /// checkpoint's length, the token count restored and later checkpoints
    /// pruned. An unknown id leaves the context unchanged and is reported.
    pub fn revert_to(&mut self, checkpoint_id: usize) -> (r: Result<(), InvalidCheckpoint>)
        ensures
            match reverted(old(self)@, checkpoint_id as nat) {
                Some(v) => r is Ok && final(self)@ == v,
                None => r == Err::<(), InvalidCheckpoint>(invalid_checkpoint(old(self)@, checkpoint_id))
                    && final(self)@ == old(self)@,
            },
    {
        if checkpoint_id >= self.checkpoints.len() {
            let max = if self.checkpoints.len() == 0 { 0 } else { self.checkpoints.len() - 1 };
            return Err(InvalidCheckpoint { id: checkpoint_id, max });
        }
        let cp = self.checkpoints[checkpoint_id];
        let ghost old_hist = self.history@;
        self.history.truncate(cp.history_len);
        self.token_count = cp.token_count;
        self.checkpoints.truncate(checkpoint_id + 1);
        proof {
            let keep = if cp.history_len < old_hist.len() { cp.history_len as int } else { old_hist.len() as int };
            assert(self.history@ =~= old_hist.take(keep));
            assert(views_of(self.history@) =~= views_of(old_hist).take(keep));
            assert(self.checkpoints@ =~= old(self).checkpoints@.take(checkpoint_id + 1));
        }
        Ok(())
    }
}

/// Whether `m` can be added to `context` without overflowing its count.
fn fits(context: &Context, m: &Message) -> (r: bool)
    ensures
        r == can_add(context@, m@),
{
    let t = context.token_count();
    let bytes = text_bytes(m);
    match bytes {
        Some(b) => {
            let est = b / 4;
            t <= usize::MAX - est
        },
        None => false,
    }
}

/// The UTF-8 length of the text parts of `m`, when it fits in a `usize`.
fn text_bytes(m: &Message) -> (r: Option<usize>)
    ensures
        match r {
            Some(b) => b == content_text_len(m@.content),
            None => content_text_len(m@.content) > usize::MAX,
        },
{
    let ghost parts = m.content@;
    let mut total: usize = 0;
    let mut i: usize = 0;
    proof {
        lemma_parts_view(parts);
    }
    while i < m.content.len()
        invariant
            i <= parts.len(),
            parts == m.content@,
            parts_view_len(parts),
            total == content_text_len(parts_view(parts).take(i as int)),
        decreases parts.len() - i,
    {
        proof {
            let pv = parts_view(parts);
            assert(pv.take(i + 1).drop_last() =~= pv.take(i as int));
            assert(pv.take(i + 1).last() == pv[i as int]);
            assert(pv[i as int] == parts[i as int]@);
        }
        match &m.content[i] {
            ContentPart::Text { text } => {
                let l = utf8_len(text.as_str());
                if total > usize::MAX - l {
                    proof {
                        lemma_text_len_mono(parts_view(parts), i as int + 1);
                    }
                    return None;
                }
                total = total + l;
            },
            _ => {},
        }
        i = i + 1;
    }
    proof {
        assert(parts_view(parts).take(parts.len() as int) =~= parts_view(parts));
    }
    Some(total)
}

spec fn parts_view_len(parts: Seq<ContentPart>) -> bool {
    &&& parts_view(parts).len() == parts.len()
    &&& forall|i: int| 0 <= i < parts.len() ==> #[trigger] parts_view(parts)[i] == parts[i]@
}

proof fn lemma_text_len_mono(s: Seq<PartView>, n: int)
    requires
        0 <= n <= s.len(),
    ensures
        content_text_len(s.take(n)) <= content_text_len(s),
    decreases s.len(),
{
    if n < s.len() {
        assert(s.drop_last().take(n) =~= s.take(n));
        lemma_text_len_mono(s.drop_last(), n);
    } else {
        assert(s.take(n) =~= s);
    }
}

/// The token estimate of `m`, when its text length fits in a `usize`.
pub fn message_tokens(m: &Message) -> (r: Option<usize>)
    ensures
        match r {
            Some(t) => content_text_len(m@.content) <= usize::MAX && t == estimated_tokens(m@),
            None => content_text_len(m@.content) > usize::MAX,
        },
{
    match text_bytes(m) {
        Some(b) => Some(b / 4),
        None => None,
    }
}

/// The sum of the token estimates of a list of messages.
pub open spec fn sum_estimates(ms: Seq<MessageView>) -> nat
    decreases ms.len(),
{
    if ms.len() == 0 {
        0
    } else {
        sum_estimates(ms.drop_last()) + estimated_tokens(ms.last())
    }
}

/// The context after appending each of `ms` in order.
pub open spec fn appended_all(v: ContextView, ms: Seq<MessageView>) -> ContextView
    decreases ms.len(),
{
    if ms.len() == 0 {
        v
    } else {
        appended(appended_all(v, ms.drop_last()), ms.last())
    }
}

/// Appending keeps the earlier history as a prefix and leaves the checkpoints
/// alone.
pub proof fn lemma_appended_all(v: ContextView, ms: Seq<MessageView>)
    ensures
        appended_all(v, ms).history == v.history + ms,
        appended_all(v, ms).checkpoints == v.checkpoints,
        appended_all(v, ms).max_tokens == v.max_tokens,
        appended_all(v, ms).token_count == v.token_count + sum_estimates(ms),
    decreases ms.len(),
{
    if ms.len() > 0 {
        lemma_appended_all(v, ms.drop_last());
        assert(v.history + ms =~= (v.history + ms.drop_last()).push(ms.last()));
    }
}

/// Reverting to a checkpoint after any number of appends restores the
/// history and token count the context had when the checkpoint was taken,
/// and keeps every checkpoint up to and including it.
pub proof fn law_revert_restores_checkpoint(
    before: ContextView,
    at_checkpoint: ContextView,
    id: nat,
    later_messages: Seq<MessageView>,
)
    requires
        checkpoint_taken(before, at_checkpoint, id),
    ensures
        reverted(appended_all(at_checkpoint, later_messages), id) == Some(ContextView {
            history: before.history,
            token_count: before.token_count,
            max_tokens: before.max_tokens,
            checkpoints: at_checkpoint.checkpoints,
        }),
{
    lemma_appended_all(at_checkpoint, later_messages);
    let later = appended_all(at_checkpoint, later_messages);
    assert(later.history.take(before.history.len() as int) =~= before.history);
    assert(at_checkpoint.checkpoints.take(id + 1int) =~= at_checkpoint.checkpoints);
}

/// Reverting to the same checkpoint twice is the same as reverting once.
pub proof fn law_revert_idempotent(v: ContextView, id: nat)
    requires
        reverted(v, id) is Some,
    ensures
        reverted(reverted(v, id)->0, id) == reverted(v, id),
{
    let w = reverted(v, id)->0;
    assert(w.checkpoints.take(id + 1int) =~= w.checkpoints);
    let cp = v.checkpoints[id as int];
    assert(w.checkpoints[id as int] == cp);
    assert(w.history.take(w.history.len() as int) =~= w.history);
}

} // verus!
