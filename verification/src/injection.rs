//! Injection of content into the context at the start of a turn.
use vstd::prelude::*;
use crate::context::{Context, ContextView, can_add, estimated_tokens, text_fits};
use crate::message::{ContentPart, Message, MessageView, PartView, Role, part_text, single_text, lemma_parts_view};
use crate::text::{chars_eq, chars_of, trim_chars, trimmed};

verus! {

/// Whether message `m` is a system message holding a text part equal to
/// `prompt` up to leading and trailing white space.
pub open spec fn holds_prompt(m: MessageView, prompt: Seq<char>) -> bool {
    &&& m.role == Role::System
    &&& exists|j: int|
        0 <= j < m.content.len() && #[trigger] part_text(m.content[j]) is Some && trimmed(
            part_text(m.content[j])->0,
        ) == trimmed(prompt)
}

/// Whether some message of the history holds `prompt`.
pub open spec fn prompt_present(h: Seq<MessageView>, prompt: Seq<char>) -> bool {
    exists|i: int| 0 <= i < h.len() && holds_prompt(#[trigger] h[i], prompt)
}

/// The position just after the last system message (0 when there is none).
pub open spec fn after_last_system(h: Seq<MessageView>) -> nat
    decreases h.len(),
{
    if h.len() == 0 {
        0
    } else if h.last().role == Role::System {
        h.len()
    } else {
        after_last_system(h.drop_last())
    }
}

proof fn lemma_after_last_system(h: Seq<MessageView>)
    ensures
        after_last_system(h) <= h.len(),
        forall|i: int| after_last_system(h) <= i < h.len() ==> #[trigger] h[i].role != Role::System,
        after_last_system(h) > 0 ==> h[after_last_system(h) - 1].role == Role::System,
    decreases h.len(),
{
    if h.len() > 0 && h.last().role != Role::System {
        lemma_after_last_system(h.drop_last());
        assert forall|i: int| after_last_system(h) <= i < h.len() implies #[trigger] h[i].role
            != Role::System by {
            if i < h.len() - 1 {
                assert(h[i] == h.drop_last()[i]);
            }
        }
    }
}

/// Inserting a system message just after the last system message moves that
/// position one step on.
proof fn lemma_after_last_system_insert(h: Seq<MessageView>, m: MessageView)
    requires
        m.role == Role::System,
    ensures
        after_last_system(h.insert(after_last_system(h) as int, m)) == after_last_system(h) + 1,
{
    lemma_after_last_system(h);
    let a = after_last_system(h) as int;
    let g = h.insert(a, m);
    lemma_after_last_system(g);
    let b = after_last_system(g) as int;
    assert(g[a] == m);
    assert forall|i: int| a + 1 <= i < g.len() implies #[trigger] g[i].role != Role::System by {
        assert(g[i] == h[i - 1]);
    }
    if b < a + 1 {
        assert(g[a].role == Role::System);
    }
    if b > a + 1 {
        assert(g[b - 1] == h[b - 2]);
    }
}

/// Prompts injected one after the other into a context that holds neither
/// end up next to each other, in the order they were injected, right after
/// the system messages that were already there.
pub proof fn law_injection_keeps_order(
    v0: ContextView,
    v1: ContextView,
    v2: ContextView,
    p1: Seq<char>,
    p2: Seq<char>,
)
    requires
        prompt_injected(v0, v1, p1),
        prompt_injected(v1, v2, p2),
        !prompt_present(v0.history, p1),
        !prompt_present(v0.history, p2),
        trimmed(p1) != trimmed(p2),
    ensures
        ({
            let a = after_last_system(v0.history) as int;
            &&& v2.history.len() == v0.history.len() + 2
            &&& single_text(v2.history[a].content, p1)
            &&& single_text(v2.history[a + 1].content, p2)
            &&& v2.history.take(a) == v0.history.take(a)
            &&& v2.history.skip(a + 2) == v0.history.skip(a)
        }),
{
    let a = after_last_system(v0.history) as int;
    lemma_after_last_system(v0.history);
    let m1 = v1.history[a];
    lemma_after_last_system_insert(v0.history, m1);
    assert(!prompt_present(v1.history, p2)) by {
        if prompt_present(v1.history, p2) {
            let i = choose|i: int| 0 <= i < v1.history.len() && holds_prompt(#[trigger] v1.history[i], p2);
            if i == a {
                let j = choose|j: int|
                    0 <= j < m1.content.len() && #[trigger] part_text(m1.content[j]) is Some && trimmed(
                        part_text(m1.content[j])->0,
                    ) == trimmed(p2);
                assert(j == 0);
            } else if i < a {
                assert(v1.history[i] == v0.history[i]);
            } else {
                assert(v1.history[i] == v0.history[i - 1]);
            }
        }
    }
    let m2 = v2.history[a + 1];
    assert(v2.history.take(a) =~= v0.history.take(a));
    assert(v2.history.skip(a + 2) =~= v0.history.skip(a));
}

/// Something that adds content to a context before a turn.
pub trait Injector {
    fn inject(&self, context: &mut Context);
}

/// Injects a fixed system prompt after the existing system messages, unless
/// the prompt is already there.
pub struct SystemPromptInjector {
    prompt: String,
}

impl View for SystemPromptInjector {
    type V = Seq<char>;

    closed spec fn view(&self) -> Seq<char> {
        self.prompt@
    }
}

/// What `inject` leaves in the context: unchanged when the prompt is already
/// present; otherwise a system message holding the prompt is inserted just
/// after the last system message.
pub open spec fn prompt_injected(before: ContextView, after: ContextView, prompt: Seq<char>) -> bool {
    if prompt_present(before.history, prompt) {
        after == before
    } else {
        let pos = after_last_system(before.history) as int;
        let m = after.history[pos];
        &&& m.role == Role::System
        &&& single_text(m.content, prompt)
        &&& after.history == before.history.insert(pos, m)
        &&& after.token_count == before.token_count + estimated_tokens(m)
        &&& after.max_tokens == before.max_tokens
        &&& after.checkpoints == before.checkpoints
    }
}

impl SystemPromptInjector {
    pub fn new(prompt: &str) -> (r: SystemPromptInjector)
        ensures
            r@ == prompt@,
    {
        SystemPromptInjector { prompt: prompt.to_owned() }
    }

    /// Whether `m` is a system message holding this prompt.
    fn holds(&self, m: &Message, prompt_trimmed: &Vec<char>) -> (r: bool)
        requires
            prompt_trimmed@ == trimmed(self@),
        ensures
            r == holds_prompt(m@, self@),
    {
        match m.role {
            Role::System => {},
            _ => return false,
        }
        let mut j: usize = 0;
        proof {
            lemma_parts_view(m.content@);
        }
        while j < m.content.len()
            invariant
                j <= m.content@.len(),
                prompt_trimmed@ == trimmed(self@),
                m.role == Role::System,
                m@.content.len() == m.content@.len(),
                forall|k: int| 0 <= k < m.content@.len() ==> #[trigger] m@.content[k] == m.content@[k]@,
                forall|k: int|
                    0 <= k < j ==> !(#[trigger] part_text(m@.content[k]) is Some && trimmed(
                        part_text(m@.content[k])->0,
                    ) == trimmed(self@)),
            decreases m.content@.len() - j,
        {
            let part = &m.content[j];
            proof {
                assert(m@.content[j as int] == part@);
            }
            if let Some(t) = part.as_text() {
                assert(part_text(part@) == Some(t@));
                let cs = chars_of(t);
                let tt = trim_chars(cs.as_slice());
                if chars_eq(tt.as_slice(), prompt_trimmed.as_slice()) {
                    proof {
                        let k = j as int;
                        assert(m@.content[k] == m.content@[k]@);
                        assert(part_text(m@.content[k]) is Some && trimmed(part_text(m@.content[k])->0)
                            == trimmed(self@));
                    }
                    return true;
                }
            }
            j = j + 1;
        }
        false
    }

    /// Inserts the prompt as a system message after the last system message,
    /// unless a system message already holds it (compared without leading and
    /// trailing white space).
    pub fn inject_prompt(&self, context: &mut Context)
        requires
            text_fits(old(context)@, self@),
        ensures
            prompt_injected(old(context)@, final(context)@, self@),
            prompt_present(final(context)@.history, self@),
    {
        let pc = chars_of(self.prompt.as_str());
        let prompt_trimmed = trim_chars(pc.as_slice());
        let ghost h = context@.history;
        let n = context.history().len();
        let mut i: usize = 0;
        while i < n
            invariant
                i <= n,
                n == h.len(),
                h == context@.history,
                prompt_trimmed@ == trimmed(self@),
                forall|k: int| 0 <= k < i ==> !holds_prompt(#[trigger] h[k], self@),
            decreases n - i,
        {
            let m = &context.history()[i];
            proof {
                assert(h[i as int] == m@);
            }
            if self.holds(m, &prompt_trimmed) {
                assert(holds_prompt(h[i as int], self@));
                return;
            }
            i = i + 1;
        }
        assert(!prompt_present(h, self@));
        let mut pos: usize = n;
        while pos > 0 && context.history()[pos - 1].role != Role::System
            invariant
                pos <= n,
                n == h.len(),
                h == context@.history,
                forall|k: int| pos <= k < n ==> #[trigger] h[k].role != Role::System,
            decreases pos,
        {
            pos = pos - 1;
        }
        proof {
            lemma_after_last_system(h);
            let a = after_last_system(h);
            assert(a == pos) by {
                if a < pos {
                    assert(h[pos - 1].role != Role::System || pos == 0);
                }
                if pos < a {
                    assert(h[a - 1].role == Role::System);
                }
            }
        }
        let msg = Message::system(self.prompt.as_str());
        let ghost mv = msg@;
        proof {
            assert(mv.content =~= seq![PartView::Text(self@)]);
        }
        context.insert_message(pos, msg);
        proof {
            let after = context@;
            assert(after.history[pos as int] == mv);
            assert(holds_prompt(mv, self@)) by {
                assert(part_text(mv.content[0]) is Some);
            }
            assert(holds_prompt(after.history[pos as int], self@));
        }
    }
}

/// One injection step: the prompt injected when it fits the context's
/// token count, the context left as it is otherwise.
pub open spec fn injected_if_fits(before: ContextView, after: ContextView, prompt: Seq<char>) -> bool {
    if text_fits(before, prompt) {
        prompt_injected(before, after, prompt)
    } else {
        after == before
    }
}

/// The prompts injected one after the other, in order.
pub open spec fn all_injected(before: ContextView, after: ContextView, prompts: Seq<Seq<char>>) -> bool
    decreases prompts.len(),
{
    if prompts.len() == 0 {
        after == before
    } else {
        exists|mid: ContextView|
            all_injected(before, mid, prompts.drop_last()) && #[trigger] injected_if_fits(mid, after, prompts.last())
    }
}

/// Injecting the same prompt twice leaves the context as injecting it once.
pub proof fn law_inject_idempotent(v0: ContextView, v1: ContextView, v2: ContextView, p: Seq<char>)
    requires
        prompt_injected(v0, v1, p),
        prompt_injected(v1, v2, p),
    ensures
        v2 == v1,
{
    if !prompt_present(v0.history, p) {
        let pos = after_last_system(v0.history) as int;
        lemma_after_last_system(v0.history);
        let m = v1.history[pos];
        assert(part_text(m.content[0]) == Some(p));
        assert(holds_prompt(v1.history[pos], p));
    }
}

impl Injector for SystemPromptInjector {
    /// Injects the prompt; a context whose token count could not absorb the
    /// prompt's estimate without overflow is left unchanged.
    fn inject(&self, context: &mut Context)
        ensures
            injected_if_fits(old(context)@, final(context)@, self@),
    {
        let probe = Message::system(self.prompt.as_str());
        proof {
            assert(probe@.content =~= seq![PartView::Text(self@)]);
            assert(can_add(context@, probe@) == text_fits(context@, self@));
        }
        if context.can_add_message(&probe) {
            self.inject_prompt(context);
        }
    }
}

/// Runs several injectors in order.
pub struct CompositeInjector {
    injectors: Vec<SystemPromptInjector>,
}

impl CompositeInjector {
    pub fn new() -> (r: CompositeInjector)
        ensures
            r.len() == 0,
    {
        CompositeInjector { injectors: Vec::new() }
    }

    pub closed spec fn len(&self) -> nat {
        self.injectors@.len()
    }

    pub closed spec fn prompt(&self, i: int) -> Seq<char> {
        self.injectors@[i]@
    }

    /// Adds an injector after those already added.
    pub fn add(&mut self, injector: SystemPromptInjector)
        ensures
            final(self).len() == old(self).len() + 1,
            forall|i: int| 0 <= i < old(self).len() ==> final(self).prompt(i) == old(self).prompt(i),
            final(self).prompt(old(self).len() as int) == injector@,
    {
        self.injectors.push(injector);
    }
}

impl CompositeInjector {
    /// The prompts of the injectors, in the order they were added.
    pub closed spec fn prompts(&self) -> Seq<Seq<char>> {
        self.injectors@.map_values(|j: SystemPromptInjector| j@)
    }
}

impl Injector for CompositeInjector {
    /// Runs the injectors in the order they were added.
    fn inject(&self, context: &mut Context)
        ensures
            all_injected(old(context)@, final(context)@, self.prompts()),
    {
        let mut i: usize = 0;
        let ghost start = context@;
        let ghost ps = self.prompts();
        assert(all_injected(start, context@, ps.take(0)));
        while i < self.injectors.len()
            invariant
                i <= self.injectors@.len(),
                ps == self.prompts(),
                all_injected(start, context@, ps.take(i as int)),
            decreases self.injectors@.len() - i,
        {
            let ghost mid = context@;
            self.injectors[i].inject(context);
            proof {
                assert(ps.take(i + 1).drop_last() =~= ps.take(i as int));
                assert(ps.take(i + 1).last() == self.injectors@[i as int]@);
                assert(injected_if_fits(mid, context@, ps.take(i + 1).last()));
            }
            i = i + 1;
        }
        assert(ps.take(self.injectors@.len() as int) =~= ps);
    }
}

} // verus!
