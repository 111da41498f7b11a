//! Per-turn cache of tool-call results.
use vstd::prelude::*;
use crate::text::str_eq;
use crate::tool::{ToolResult, ToolResultView};
use crate::provider::{json_rendering, json_text};

verus! {

/// Deduplicates tool calls within a single turn.
///
/// A call is identified by the tool's name and the JSON text of its
/// arguments. When the model issues identical calls in one turn, the later
/// ones are answered from the cache; the cache is cleared at the start of each
/// turn.
pub struct Deduplicator {
    entries: Vec<(String, String, ToolResult)>,
}

/// The key of a cached call: tool name and argument text.
pub type CallKey = (Seq<char>, Seq<char>);

spec fn keys_distinct(e: Seq<(String, String, ToolResult)>) -> bool {
    forall|i: int, j: int|
        0 <= i < e.len() && 0 <= j < e.len() && i != j ==> (#[trigger] e[i].0@, e[i].1@) != (
            #[trigger] e[j].0@,
            e[j].1@,
        )
}

spec fn entries_map(e: Seq<(String, String, ToolResult)>) -> Map<CallKey, ToolResultView>
    decreases e.len(),
{
    if e.len() == 0 {
        Map::empty()
    } else {
        entries_map(e.drop_last()).insert((e.last().0@, e.last().1@), e.last().2@)
    }
}

proof fn lemma_entries_map(e: Seq<(String, String, ToolResult)>)
    requires
        keys_distinct(e),
    ensures
        forall|k: CallKey|
            #[trigger] entries_map(e).contains_key(k) <==> exists|i: int| 0 <= i < e.len() && k == (#[trigger] e[i].0@, e[i].1@),
        forall|i: int| 0 <= i < e.len() ==> #[trigger] entries_map(e)[(e[i].0@, e[i].1@)] == e[i].2@,
    decreases e.len(),
{
    if e.len() > 0 {
        let d = e.drop_last();
        assert(keys_distinct(d)) by {
            assert forall|i: int, j: int| 0 <= i < d.len() && 0 <= j < d.len() && i != j implies (
            #[trigger] d[i].0@, d[i].1@) != (#[trigger] d[j].0@, d[j].1@) by {
                assert(d[i] == e[i] && d[j] == e[j]);
            }
        }
        lemma_entries_map(d);
        assert forall|k: CallKey| #[trigger] entries_map(e).contains_key(k) <==> exists|i: int|
            0 <= i < e.len() && k == (#[trigger] e[i].0@, e[i].1@) by {
            if entries_map(d).contains_key(k) {
                let i = choose|i: int| 0 <= i < d.len() && k == (#[trigger] d[i].0@, d[i].1@);
                assert(e[i] == d[i]);
            }
            if exists|i: int| 0 <= i < e.len() && k == (#[trigger] e[i].0@, e[i].1@) {
                let i = choose|i: int| 0 <= i < e.len() && k == (#[trigger] e[i].0@, e[i].1@);
                if i < e.len() - 1 {
                    assert(e[i] == d[i]);
                }
            }
        }
        assert forall|i: int| 0 <= i < e.len() implies #[trigger] entries_map(e)[(e[i].0@, e[i].1@)] == e[i].2@ by {
            if i < e.len() - 1 {
                assert(e[i] == d[i]);
                assert((e[i].0@, e[i].1@) != (e.last().0@, e.last().1@));
                assert(entries_map(d)[(d[i].0@, d[i].1@)] == d[i].2@);
            } else {
                assert(e[i] == e.last());
            }
        }
    }
}

impl View for Deduplicator {
    type V = Map<CallKey, ToolResultView>;

    closed spec fn view(&self) -> Map<CallKey, ToolResultView> {
        entries_map(self.entries@)
    }
}

impl Deduplicator {
    #[verifier::type_invariant]
    spec fn well_formed(&self) -> bool {
        keys_distinct(self.entries@)
    }

    /// An empty cache.
    pub fn new() -> (r: Deduplicator)
        ensures
            r@ == Map::<CallKey, ToolResultView>::empty(),
    {
        Deduplicator { entries: Vec::new() }
    }

    /// Forgets every cached result; called at the start of each turn.
    pub fn clear(&mut self)
        ensures
            final(self)@ == Map::<CallKey, ToolResultView>::empty(),
    {
        let mut e: Vec<(String, String, ToolResult)> = Vec::new();
        std::mem::swap(&mut e, &mut self.entries);
        proof {
            assert(entries_map(Seq::<(String, String, ToolResult)>::empty()) =~= Map::empty());
        }
    }

    fn find(&self, name: &str, args: &str) -> (r: Option<usize>)
        ensures
            match r {
                Some(i) => i < self.entries@.len() && self.entries@[i as int].0@ == name@
                    && self.entries@[i as int].1@ == args@,
                None => forall|i: int|
                    0 <= i < self.entries@.len() ==> (#[trigger] self.entries@[i].0@, self.entries@[i].1@) != (
                        name@,
                        args@,
                    ),
            },
    {
        let mut i: usize = 0;
        while i < self.entries.len()
            invariant
                i <= self.entries@.len(),
                forall|k: int|
                    0 <= k < i ==> (#[trigger] self.entries@[k].0@, self.entries@[k].1@) != (name@, args@),
            decreases self.entries@.len() - i,
        {
            let e = &self.entries[i];
            if str_eq(e.0.as_str(), name) && str_eq(e.1.as_str(), args) {
                return Some(i);
            }
            i = i + 1;
        }
        None
    }

    /// The cached result of the call of tool `name` with arguments `args`,
    /// which are identified by their JSON text.
    pub fn get(&self, name: &str, args: &serde_json::Value) -> (r: Option<ToolResult>)
        ensures
            match r {
                Some(res) => self@.contains_key((name@, json_rendering(*args))) && res@ == self@[(
                    name@,
                    json_rendering(*args),
                )],
                None => !self@.contains_key((name@, json_rendering(*args))),
            },
    {
        let text = json_text(args);
        self.get_by_text(name, text.as_str())
    }

    /// Caches `result` for the call of tool `name` with arguments `args`,
    /// replacing any earlier result for that call.
    pub fn insert(&mut self, name: &str, args: &serde_json::Value, result: ToolResult)
        ensures
            final(self)@ == old(self)@.insert((name@, json_rendering(*args)), result@),
    {
        let text = json_text(args);
        self.insert_by_text(name, text.as_str(), result)
    }

    /// The cached result of the call of tool `name` with argument text `args`.
    pub fn get_by_text(&self, name: &str, args: &str) -> (r: Option<ToolResult>)
        ensures
            match r {
                Some(res) => self@.contains_key((name@, args@)) && res@ == self@[(name@, args@)],
                None => !self@.contains_key((name@, args@)),
            },
    {
        proof {
            use_type_invariant(self);
            lemma_entries_map(self.entries@);
        }
        match self.find(name, args) {
            Some(i) => Some(self.entries[i].2.clone()),
            None => None,
        }
    }

    /// Caches `result` for the call of tool `name` with argument text `args`,
    /// replacing any earlier result for that call.
    pub fn insert_by_text(&mut self, name: &str, args: &str, result: ToolResult)
        ensures
            final(self)@ == old(self)@.insert((name@, args@), result@),
    {
        proof {
            use_type_invariant(&*self);
            lemma_entries_map(self.entries@);
        }
        let ghost old_e = self.entries@;
        let found = self.find(name, args);
        let mut e: Vec<(String, String, ToolResult)> = Vec::new();
        std::mem::swap(&mut e, &mut self.entries);
        let ghost rv = result@;
        match found {
            Some(i) => {
                let entry = (name.to_owned(), args.to_owned(), result);
                e.set(i, entry);
                proof {
                    assert(keys_distinct(e@)) by {
                        assert forall|x: int, y: int|
                            0 <= x < e@.len() && 0 <= y < e@.len() && x != y implies (#[trigger] e@[x].0@, e@[x].1@)
                            != (#[trigger] e@[y].0@, e@[y].1@) by {
                            assert((old_e[x].0@, old_e[x].1@) != (old_e[y].0@, old_e[y].1@));
                        }
                    }
                    lemma_entries_map(e@);
                    assert(entries_map(e@) =~= entries_map(old_e).insert((name@, args@), rv)) by {
                        assert(e@[i as int].0@ == name@ && e@[i as int].1@ == args@);
                        assert(old_e[i as int].0@ == name@ && old_e[i as int].1@ == args@);
                        assert forall|k: CallKey| #[trigger] entries_map(e@).contains_key(k)
                            == entries_map(old_e).insert((name@, args@), rv).contains_key(k) by {
                            if k == (name@, args@) {
                                assert(k == (e@[i as int].0@, e@[i as int].1@));
                            }
                            if exists|j: int| 0 <= j < old_e.len() && k == (#[trigger] old_e[j].0@, old_e[j].1@) {
                                let j = choose|j: int| 0 <= j < old_e.len() && k == (#[trigger] old_e[j].0@, old_e[j].1@);
                                if j != i {
                                    assert(e@[j] == old_e[j]);
                                }
                            }
                            if exists|j: int| 0 <= j < e@.len() && k == (#[trigger] e@[j].0@, e@[j].1@) {
                                let j = choose|j: int| 0 <= j < e@.len() && k == (#[trigger] e@[j].0@, e@[j].1@);
                                if j != i {
                                    assert(e@[j] == old_e[j]);
                                }
                            }
                        }
                        assert forall|k: CallKey| #[trigger] entries_map(e@).contains_key(k) implies entries_map(e@)[k]
                            == entries_map(old_e).insert((name@, args@), rv)[k] by {
                            let j = choose|j: int| 0 <= j < e@.len() && k == (#[trigger] e@[j].0@, e@[j].1@);
                            if j != i {
                                assert(e@[j] == old_e[j]);
                            }
                        }
                    }
                }
            },
            None => {
                let entry = (name.to_owned(), args.to_owned(), result);
                e.push(entry);
                proof {
                    assert(e@.drop_last() =~= old_e);
                    assert(keys_distinct(e@)) by {
                        assert forall|x: int, y: int|
                            0 <= x < e@.len() && 0 <= y < e@.len() && x != y implies (#[trigger] e@[x].0@, e@[x].1@)
                            != (#[trigger] e@[y].0@, e@[y].1@) by {
                            if x < old_e.len() && y < old_e.len() {
                                assert(e@[x] == old_e[x] && e@[y] == old_e[y]);
                            } else if x < old_e.len() {
                                assert(e@[x] == old_e[x]);
                            } else {
                                assert(e@[y] == old_e[y]);
                            }
                        }
                    }
                }
            },
        }
        self.entries = e;
    }
}

/// What the cache answers after a result is stored for a call: that result
/// for the call, and what it answered before for every other call.
pub proof fn law_cached_after_insert(
    before: Map<CallKey, ToolResultView>,
    after: Map<CallKey, ToolResultView>,
    call: CallKey,
    result: ToolResultView,
    other: CallKey,
)
    requires
        after == before.insert(call, result),
        other != call,
    ensures
        after.contains_key(call),
        after[call] == result,
        after.contains_key(other) == before.contains_key(other),
        before.contains_key(other) ==> after[other] == before[other],
{
}

} // verus!
