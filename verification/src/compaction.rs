//! Compaction: replacing old history with a summary line.
use vstd::prelude::*;
use vstd::string::StringExecFns;
use crate::context::{
    Context, ContextView, appended, appended_all, can_add, cleared, estimated_tokens, lemma_appended_all,
    lemma_context_bounds, message_tokens, sum_estimates, views_of,
};
use crate::message::{Message, MessageView, PartView, Role, single_text};
use crate::text::{decimal, push_decimal};

verus! {

/// The summary text that stands for `n` dropped messages of a context that
/// held `tokens` tokens.
pub open spec fn summary_text(n: nat, tokens: nat) -> Seq<char> {
    "[SUMMARY] "@ + decimal(n) + " previous messages summarized ("@ + decimal(tokens) + " tokens)"@
}

/// Whether the estimates of `ms` (and each text length) fit in a `usize`,
/// starting from `start`.
pub open spec fn estimates_fit(start: nat, ms: Seq<MessageView>) -> bool {
    &&& start + sum_estimates(ms) <= usize::MAX
    &&& forall|i: int| 0 <= i < ms.len() ==> crate::context::content_text_len(#[trigger] ms[i].content) <= usize::MAX
}

/// Whether `s` is a summary message for `n` dropped messages of a context
/// holding `tokens` tokens.
pub open spec fn summary_of(s: MessageView, n: nat, tokens: nat) -> bool {
    &&& s.role == Role::System
    &&& single_text(s.content, summary_text(n, tokens))
}

/// What compaction does to a context that keeps the last `window` messages:
/// with more than `window + 1` messages, the older ones are replaced by one
/// system message holding the summary text, followed by the kept messages;
/// otherwise nothing changes.
pub open spec fn compacted(before: ContextView, after: ContextView, window: nat, done: bool) -> bool {
    let n = before.history.len();
    if n <= window + 1 {
        !done && after == before
    } else {
        let split = (n - window) as nat;
        let kept = before.history.skip(split as int);
        exists|s: MessageView|
            #[trigger] summary_of(s, split, before.token_count) && {
                ||| done && after == appended_all(appended(cleared(before), s), kept)
                ||| !done && after == before && !estimates_fit(estimated_tokens(s), kept)
            }
    }
}

fn summary_line(n: usize, tokens: usize) -> (r: String)
    ensures
        r@ == summary_text(n as nat, tokens as nat),
{
    let mut s = "[SUMMARY] ".to_owned();
    push_decimal(&mut s, n as u64);
    s.append(" previous messages summarized (");
    push_decimal(&mut s, tokens as u64);
    s.append(" tokens)");
    s
}

/// Replaces all but the last `preserve_window` messages by a summary system
/// message and returns true; returns false, changing nothing, when the
/// history holds at most `preserve_window + 1` messages. (A history whose
/// token estimates could not be summed in a `usize` is also left alone.)
pub fn compact_history(context: &mut Context, preserve_window: usize) -> (r: bool)
    ensures
        compacted(old(context)@, final(context)@, preserve_window as nat, r),
{
    let len = context.history().len();
    let limit = if preserve_window == usize::MAX { usize::MAX } else { preserve_window + 1 };
    if len <= limit {
        return false;
    }
    let split = len - preserve_window;
    let current = context.token_count();
    let text = summary_line(split, current);
    let summary = Message::system(text.as_str());
    let ghost sv = summary@;
    let ghost before = context@;
    let ghost kept = before.history.skip(split as int);
    proof {
        assert(summary_of(sv, split as nat, before.token_count));
    }
    // the summary's byte length is a usize, so its token estimate exists
    let _summary_bytes = crate::text::utf8_len(text.as_str());
    proof {
        assert(sv.content =~= seq![PartView::Text(text@)]);
        assert(sv.content.drop_last() =~= Seq::<PartView>::empty());
        assert(crate::context::content_text_len(Seq::<PartView>::empty()) == 0);
    }
    let mut total = match message_tokens(&summary) {
        Some(t) => t,
        None => {
            return false;
        },
    };
    // check that all kept messages fit, and copy them, before touching the context
    let h = context.history();
    let mut copies: Vec<Message> = Vec::new();
    let mut i: usize = split;
    while i < len
        invariant
            split <= i <= len,
            len == h@.len(),
            views_of(h@) == before.history,
            kept == before.history.skip(split as int),
            total == estimated_tokens(sv) + sum_estimates(kept.take(i - split)),
            forall|k: int| 0 <= k < i - split ==> crate::context::content_text_len(#[trigger] kept[k].content) <= usize::MAX,
            views_of(copies@) == kept.take(i - split),
            summary_of(sv, split as nat, before.token_count),
            before == old(context)@,
            split == before.history.len() - preserve_window,
        decreases len - i,
    {
        proof {
            assert(kept.take(i - split + 1).drop_last() =~= kept.take(i - split));
            assert(kept[i - split] == h@[i as int]@);
        }
        match message_tokens(&h[i]) {
            Some(t) => {
                if total > usize::MAX - t {
                    proof {
                        lemma_sum_prefix(kept, i - split + 1);
                        assert(summary_of(sv, (before.history.len() - preserve_window as nat) as nat, before.token_count));
                        assert(!estimates_fit(estimated_tokens(sv), kept));
                    }
                    return false;
                }
                total = total + t;
            },
            None => {
                proof {
                    assert(summary_of(sv, (before.history.len() - preserve_window as nat) as nat, before.token_count));
                    assert(crate::context::content_text_len(kept[i - split].content) > usize::MAX);
                    assert(!estimates_fit(estimated_tokens(sv), kept));
                }
                return false;
            },
        }
        let ghost prev = copies@;
        copies.push(h[i].clone());
        proof {
            assert(views_of(copies@) =~= views_of(prev).push(kept[i - split]));
        }
        i = i + 1;
    }
    proof {
        assert(kept.take(len - split) =~= kept);
        lemma_context_bounds(context);
    }
    context.clear();
    context.append_message(summary);
    let ghost base = context@;
    let mut j: usize = 0;
    let n = copies.len();
    for m in it: copies
        invariant
            it.seq() == copies@,
            n == copies@.len(),
            views_of(copies@) == kept,
            base == appended(cleared(before), sv),
            base.token_count == estimated_tokens(sv),
            total == estimated_tokens(sv) + sum_estimates(kept),
            forall|k: int| 0 <= k < kept.len() ==> crate::context::content_text_len(#[trigger] kept[k].content) <= usize::MAX,
            context@ == appended_all(base, kept.take(it.index())),
            summary_of(sv, split as nat, before.token_count),
            before == old(context)@,
            split == before.history.len() - preserve_window,
            kept == before.history.skip(split as int),
    {
        let ghost idx = it.index();
        proof {
            lemma_appended_all(base, kept.take(idx));
            lemma_sum_prefix(kept, idx + 1);
            assert(kept.take(idx + 1).drop_last() =~= kept.take(idx));
            assert(kept.take(idx + 1).last() == m@);
            assert(sum_estimates(kept.take(idx + 1)) == sum_estimates(kept.take(idx)) + estimated_tokens(m@));
        }
        context.append_message(m);
    }
    proof {
        assert(kept.take(n as int) =~= kept);
        assert(summary_of(sv, (before.history.len() - preserve_window as nat) as nat, before.token_count));
    }
    true
}

proof fn lemma_sum_prefix(ms: Seq<MessageView>, n: int)
    requires
        0 <= n <= ms.len(),
    ensures
        sum_estimates(ms.take(n)) <= sum_estimates(ms),
    decreases ms.len(),
{
    if n < ms.len() {
        assert(ms.drop_last().take(n) =~= ms.take(n));
        lemma_sum_prefix(ms.drop_last(), n);
    } else {
        assert(ms.take(n) =~= ms);
    }
}

/// Compaction keeps the most recent messages untouched: after it, the
/// history is the summary message followed by exactly the last `window`
/// messages from before, and the token count is the summary's estimate
/// plus theirs. The checkpoints and budget are left as they were.
pub proof fn law_compaction_keeps_recent(before: ContextView, after: ContextView, window: nat)
    requires
        compacted(before, after, window, true),
    ensures
        before.history.len() > window + 1,
        after.history.len() == window + 1,
        summary_of(
            after.history[0],
            (before.history.len() - window) as nat,
            before.token_count,
        ),
        after.history.skip(1) == before.history.skip(before.history.len() - window),
        after.token_count == estimated_tokens(after.history[0]) + sum_estimates(after.history.skip(1)),
        after.checkpoints == before.checkpoints,
        after.max_tokens == before.max_tokens,
{
    let n = before.history.len();
    let split = (n - window) as nat;
    let kept = before.history.skip(split as int);
    let s = choose|s: MessageView|
        #[trigger] summary_of(s, split, before.token_count) && after == appended_all(
            appended(cleared(before), s),
            kept,
        );
    let start = appended(cleared(before), s);
    lemma_appended_all(start, kept);
    assert(start.history =~= seq![s]);
    assert(after.history == seq![s] + kept);
    assert(after.history[0] == s);
    assert(after.history.skip(1) =~= kept);
}

} // verus!
