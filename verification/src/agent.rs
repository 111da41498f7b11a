//! Agents and the registry that holds them.
use vstd::prelude::*;
use crate::context::Context;
use crate::table::NamedTable;

verus! {

/// What an agent is authorized to do.
#[derive(Debug, Clone, Copy, PartialEq, Eq, Structural)]
pub enum AgentMode {
    Implement,
    Review,
    Explore,
    Test,
    Assist,
}

/// A named agent with its own context and configuration.
#[derive(Debug)]
pub struct Agent {
    pub name: String,
    pub callsign: String,
    pub mode: AgentMode,
    pub context: Context,
    pub session_ids: Vec<String>,
    pub model_name: String,
    pub max_steps: usize,
}

/// The model an agent uses unless told otherwise: none of its own (the
/// empty name), so the provider's model is used.
pub open spec fn default_model() -> Seq<char> {
    Seq::empty()
}

impl Agent {
    /// A fresh agent: empty context with a budget of 200000 tokens, no
    /// sessions, no model of its own and at most 50 steps per turn.
    pub fn new(name: &str, callsign: &str, mode: AgentMode) -> (r: Agent)
        ensures
            r.name@ == name@,
            r.callsign@ == callsign@,
            r.mode == mode,
            r.context@.history.len() == 0,
            r.context@.token_count == 0,
            r.context@.max_tokens == 200_000,
            r.context@.checkpoints.len() == 0,
            r.session_ids@.len() == 0,
            r.model_name@ == default_model(),
            r.max_steps == 50,
    {
        Agent {
            name: name.to_owned(),
            callsign: callsign.to_owned(),
            mode,
            context: Context::new(200_000),
            session_ids: Vec::new(),
            model_name: String::new(),
            max_steps: 50,
        }
    }

    /// The same agent using another model.
    pub fn with_model(self, model: &str) -> (r: Agent)
        ensures
            r.model_name@ == model@,
            r.name == self.name,
            r.callsign == self.callsign,
            r.mode == self.mode,
            r.context == self.context,
            r.session_ids == self.session_ids,
            r.max_steps == self.max_steps,
    {
        Agent { model_name: model.to_owned(), ..self }
    }

    /// The same agent with another step limit.
    pub fn with_max_steps(self, max_steps: usize) -> (r: Agent)
        ensures
            r.max_steps == max_steps,
            r.name == self.name,
            r.callsign == self.callsign,
            r.mode == self.mode,
            r.context == self.context,
            r.session_ids == self.session_ids,
            r.model_name == self.model_name,
    {
        Agent { max_steps, ..self }
    }
}

/// Registry of all known agents, each under the name it was registered
/// with, listed in registration order.
#[derive(Debug)]
pub struct AgentRegistry {
    agents: NamedTable<Agent>,
}

impl AgentRegistry {
    /// The names the agents were registered under, in registration order.
    pub closed spec fn names(&self) -> Seq<Seq<char>> {
        self.agents.keys()
    }

    /// The registered agents, in the same order.
    pub closed spec fn agents(&self) -> Seq<Agent> {
        self.agents.values()
    }

    /// Where `name` stands among the names.
    pub closed spec fn position(&self, name: Seq<char>) -> Option<int> {
        self.agents.index_of(name)
    }

    /// The agent registered under `name`.
    pub closed spec fn agent(&self, name: Seq<char>) -> Option<Agent> {
        self.agents.lookup(name)
    }

    pub fn new() -> (r: AgentRegistry)
        ensures
            r.names().len() == 0,
            r.agents().len() == 0,
            forall|n: Seq<char>| #[trigger] r.position(n) is None,
            forall|n: Seq<char>| #[trigger] r.agent(n) is None,
    {
        AgentRegistry { agents: NamedTable::new() }
    }

    /// Adds an agent under its name; an agent registered under the same name
    /// is replaced in place, and a new name is listed last.
    pub fn register(&mut self, agent: Agent)
        ensures
            final(self).agent(agent.name@) == Some(agent),
            forall|other: Seq<char>| other != agent.name@ ==> #[trigger] final(self).agent(other) == old(
                self,
            ).agent(other),
            match old(self).agent(agent.name@) {
                Some(_) => final(self).names() == old(self).names() && final(self).agents() == old(
                    self,
                ).agents().update(old(self).position(agent.name@)->0, agent),
                None => final(self).names() == old(self).names().push(agent.name@) && final(self).agents()
                    == old(self).agents().push(agent),
            },
    {
        let name = agent.name.clone();
        let _previous = self.agents.insert(name.as_str(), agent);
    }

    /// The agent registered under `name`, if any.
    pub fn get(&self, name: &str) -> (r: Option<&Agent>)
        ensures
            match r {
                Some(a) => self.agent(name@) == Some(*a),
                None => self.agent(name@) is None,
            },
    {
        self.agents.get(name)
    }

    /// The agent registered under `name`, to change in place; the names it
    /// is registered under stay as they are.
    pub fn get_mut(&mut self, name: &str) -> (r: Option<&mut Agent>)
        ensures
            match r {
                Some(a) => old(self).agent(name@) == Some(*a) && final(self).names() == old(self).names()
                    && final(self).agents() == old(self).agents().update(
                    old(self).position(name@)->0,
                    *final(a),
                ),
                None => old(self).agent(name@) is None && final(self).names() == old(self).names()
                    && final(self).agents() == old(self).agents(),
            },
    {
        self.agents.get_mut(name)
    }

    /// All agents, in registration order.
    pub fn list(&self) -> (r: Vec<&Agent>)
        ensures
            r@.len() == self.agents().len(),
            forall|i: int| 0 <= i < r@.len() ==> *r@[i] == #[trigger] self.agents()[i],
    {
        proof {
            self.agents.lemma_lengths();
        }
        let mut r: Vec<&Agent> = Vec::new();
        let mut i: usize = 0;
        while i < self.agents.len()
            invariant
                i <= self.agents().len(),
                self.agents.keys().len() == self.agents().len(),
                r@.len() == i,
                forall|k: int| 0 <= k < i ==> *r@[k] == #[trigger] self.agents()[k],
            decreases self.agents().len() - i,
        {
            let (_name, a) = self.agents.entry(i);
            r.push(a);
            i = i + 1;
        }
        r
    }

    /// Number of registered agents.
    pub fn len(&self) -> (r: usize)
        ensures
            r == self.agents().len(),
    {
        proof {
            self.agents.lemma_lengths();
        }
        self.agents.len()
    }

    /// Removes and returns the agent registered under `name`, if any; the
    /// others keep their order.
    pub fn remove(&mut self, name: &str) -> (r: Option<Agent>)
        ensures
            match old(self).agent(name@) {
                Some(a) => r == Some(a) && final(self).names() == old(self).names().remove(
                    old(self).position(name@)->0,
                ) && final(self).agents() == old(self).agents().remove(old(self).position(name@)->0),
                None => r is None && final(self).names() == old(self).names() && final(self).agents() == old(
                    self,
                ).agents(),
            },
            final(self).agent(name@) is None,
    {
        let r = self.agents.remove(name);
        proof {
            if self.agents.index_of(name@) is Some {
                let i = self.agents.index_of(name@)->0;
                assert(self.agents.keys()[i] == name@);
                assert(self.agents.keys().contains(name@));
            }
        }
        r
    }
}

} // verus!
