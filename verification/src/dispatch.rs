//! Routing of task briefs to agents.
use vstd::prelude::*;
use vstd::string::StringExecFns;
use crate::agent::{Agent, AgentMode, AgentRegistry};

verus! {

broadcast use vstd::string::group_string_axioms;

/// High-level intent of a brief.
#[derive(Debug, Clone, Copy, PartialEq, Eq, Structural)]
pub enum Intent {
    /// Write or modify code.
    Implement,
    /// Review existing code.
    Review,
    /// Explore or research.
    Explore,
    /// Write or run tests.
    Test,
    /// General assistance.
    Assist,
}

/// A task brief: what needs doing, and what kind of agent should do it.
#[derive(Debug)]
pub struct Brief {
    pub title: String,
    pub description: String,
    pub intent: Intent,
    pub tags: Vec<String>,
}

impl Brief {
    pub fn new(title: &str, description: &str, intent: Intent) -> (r: Brief)
        ensures
            r.title@ == title@,
            r.description@ == description@,
            r.intent == intent,
            r.tags@.len() == 0,
    {
        Brief {
            title: title.to_owned(),
            description: description.to_owned(),
            intent,
            tags: Vec::new(),
        }
    }

    /// The same brief with the given tags.
    pub fn with_tags(self, tags: Vec<String>) -> (r: Brief)
        ensures
            r.tags == tags,
            r.title == self.title,
            r.description == self.description,
            r.intent == self.intent,
    {
        Brief { tags, ..self }
    }
}

/// The agent mode that serves an intent.
pub open spec fn mode_for(intent: Intent) -> AgentMode {
    match intent {
        Intent::Implement => AgentMode::Implement,
        Intent::Review => AgentMode::Review,
        Intent::Explore => AgentMode::Explore,
        Intent::Test => AgentMode::Test,
        Intent::Assist => AgentMode::Assist,
    }
}

/// Whether an agent in `mode` can take a brief with `intent`: the mode made
/// for the intent, or an assist agent, which handles anything.
pub open spec fn spec_mode_matches(intent: Intent, mode: AgentMode) -> bool {
    mode == mode_for(intent) || mode == AgentMode::Assist
}

/// Whether an agent in `mode` can take a brief with `intent`.
pub fn mode_matches(intent: Intent, mode: AgentMode) -> (r: bool)
    ensures
        r == spec_mode_matches(intent, mode),
{
    match (intent, mode) {
        (Intent::Implement, AgentMode::Implement) => true,
        (Intent::Review, AgentMode::Review) => true,
        (Intent::Explore, AgentMode::Explore) => true,
        (Intent::Test, AgentMode::Test) => true,
        (Intent::Assist, AgentMode::Assist) => true,
        (_, AgentMode::Assist) => true,
        _ => false,
    }
}

impl From<Intent> for AgentMode {
    fn from(intent: Intent) -> (r: AgentMode) {
        match intent {
            Intent::Implement => AgentMode::Implement,
            Intent::Review => AgentMode::Review,
            Intent::Explore => AgentMode::Explore,
            Intent::Test => AgentMode::Test,
            Intent::Assist => AgentMode::Assist,
        }
    }
}

impl vstd::std_specs::convert::FromSpecImpl<Intent> for AgentMode {
    open spec fn obeys_from_spec() -> bool {
        true
    }

    open spec fn from_spec(v: Intent) -> AgentMode {
        mode_for(v)
    }
}

/// The name of an intent, as its variant is written.
pub open spec fn intent_label(intent: Intent) -> Seq<char> {
    match intent {
        Intent::Implement => "Implement"@,
        Intent::Review => "Review"@,
        Intent::Explore => "Explore"@,
        Intent::Test => "Test"@,
        Intent::Assist => "Assist"@,
    }
}

/// The name of an intent.
pub fn intent_name(intent: Intent) -> (r: &'static str)
    ensures
        r@ == intent_label(intent),
{
    match intent {
        Intent::Implement => "Implement",
        Intent::Review => "Review",
        Intent::Explore => "Explore",
        Intent::Test => "Test",
        Intent::Assist => "Assist",
    }
}

/// Outcome of dispatching a brief.
#[derive(Debug, PartialEq, Eq)]
pub enum DispatchResult {
    /// Routed to an existing agent.
    Routed { agent_name: String },
    /// No suitable agent: the caller should spawn one.
    SpawnNeeded { suggested_mode: AgentMode, reason: String },
}

/// Index of the first agent that can take a brief with `intent`.
pub open spec fn first_match(agents: Seq<Agent>, intent: Intent) -> Option<int>
    decreases agents.len(),
{
    if agents.len() == 0 {
        None
    } else {
        match first_match(agents.drop_last(), intent) {
            Some(i) => Some(i),
            None => if spec_mode_matches(intent, agents.last().mode) {
                Some(agents.len() - 1)
            } else {
                None
            },
        }
    }
}

/// The first match is the first agent able to take the brief: every
/// agent before it cannot, and with no match none can.
pub proof fn lemma_first_match(agents: Seq<Agent>, intent: Intent)
    ensures
        match first_match(agents, intent) {
            Some(i) => 0 <= i < agents.len() && spec_mode_matches(intent, agents[i].mode) && forall|k: int|
                0 <= k < i ==> !spec_mode_matches(intent, #[trigger] agents[k].mode),
            None => forall|k: int| 0 <= k < agents.len() ==> !spec_mode_matches(intent, #[trigger] agents[k].mode),
        },
    decreases agents.len(),
{
    if agents.len() > 0 {
        lemma_first_match(agents.drop_last(), intent);
        match first_match(agents.drop_last(), intent) {
            Some(i) => {
                assert forall|k: int| 0 <= k < i implies !spec_mode_matches(intent, #[trigger] agents[k].mode) by {
                    assert(agents[k] == agents.drop_last()[k]);
                }
                assert(agents[i] == agents.drop_last()[i]);
            },
            None => {
                assert forall|k: int| 0 <= k < agents.len() - 1 implies !spec_mode_matches(intent, #[trigger] agents[k].mode) by {
                    assert(agents[k] == agents.drop_last()[k]);
                }
            },
        }
    }
}

/// The text explaining that no agent can take a brief.
pub open spec fn no_agent_reason(intent: Intent) -> Seq<char> {
    "no agent available for "@ + intent_label(intent)
}

/// What dispatching a brief with `intent` to `agents` gives: the first agent
/// able to take it, or a request to spawn one in the intent's mode.
pub open spec fn dispatch_outcome(agents: Seq<Agent>, intent: Intent, r: DispatchResult) -> bool {
    match (first_match(agents, intent), r) {
        (Some(i), DispatchResult::Routed { agent_name }) => agent_name@ == agents[i].name@,
        (None, DispatchResult::SpawnNeeded { suggested_mode, reason }) => suggested_mode == mode_for(
            intent,
        ) && reason@ == no_agent_reason(intent),
        _ => false,
    }
}

/// Routes briefs to agents based on intent.
pub struct Dispatcher {
    registry: AgentRegistry,
}

impl Dispatcher {
    pub fn new(registry: AgentRegistry) -> (r: Dispatcher)
        ensures
            r.agents() == registry.agents(),
    {
        Dispatcher { registry }
    }

    /// The agents the dispatcher routes to, in registration order.
    pub closed spec fn agents(&self) -> Seq<Agent> {
        self.registry.agents()
    }

    /// Picks the first registered agent able to take the brief, or asks for
    /// one to be spawned.
    pub fn dispatch(&self, brief: &Brief) -> (r: DispatchResult)
        ensures
            dispatch_outcome(self.agents(), brief.intent, r),
    {
        let agents = self.registry.list();
        let ghost s = self.agents();
        proof {
            lemma_first_match(s, brief.intent);
        }
        let mut i: usize = 0;
        while i < agents.len()
            invariant
                agents@.len() == s.len(),
                forall|k: int| 0 <= k < s.len() ==> *agents@[k] == #[trigger] s[k],
                s == self.agents(),
                i <= s.len(),
                forall|k: int| 0 <= k < i ==> !spec_mode_matches(brief.intent, #[trigger] s[k].mode),
            decreases s.len() - i,
        {
            if mode_matches(brief.intent, agents[i].mode) {
                proof {
                    lemma_first_match(s, brief.intent);
                    match first_match(s, brief.intent) {
                        Some(j) => {
                            if j < i {
                                assert(!spec_mode_matches(brief.intent, s[j].mode));
                            }
                            if i < j {
                                assert(spec_mode_matches(brief.intent, s[i as int].mode));
                            }
                        },
                        None => {
                            assert(spec_mode_matches(brief.intent, s[i as int].mode));
                        },
                    }
                    assert(first_match(s, brief.intent) == Some(i as int));
                }
                let agent_name = agents[i].name.clone();
                assert(agent_name@ == s[i as int].name@);
                return DispatchResult::Routed { agent_name };
            }
            i = i + 1;
        }
        let mut reason = "no agent available for ".to_owned();
        reason.append(intent_name(brief.intent));
        let suggested_mode: AgentMode = brief.intent.into();
        DispatchResult::SpawnNeeded { suggested_mode, reason }
    }

    /// A new agent, in the mode the brief's intent calls for.
    pub fn spawn_for(&self, brief: &Brief, name: &str, callsign: &str) -> (r: Agent)
        ensures
            r.name@ == name@,
            r.callsign@ == callsign@,
            r.mode == mode_for(brief.intent),
            r.context@.history.len() == 0,
            r.max_steps == 50,
    {
        Agent::new(name, callsign, brief.intent.into())
    }
}

/// With an assist agent registered, no brief ever asks for a spawn.
pub proof fn law_assist_agent_takes_everything(agents: Seq<Agent>, intent: Intent, r: DispatchResult)
    requires
        exists|i: int| 0 <= i < agents.len() && #[trigger] agents[i].mode == AgentMode::Assist,
        dispatch_outcome(agents, intent, r),
    ensures
        r is Routed,
{
    lemma_first_match(agents, intent);
    let i = choose|i: int| 0 <= i < agents.len() && #[trigger] agents[i].mode == AgentMode::Assist;
    assert(spec_mode_matches(intent, agents[i].mode));
}

/// A brief is routed exactly when some registered agent can take it.
pub proof fn law_routed_iff_some_agent_matches(agents: Seq<Agent>, intent: Intent, r: DispatchResult)
    requires
        dispatch_outcome(agents, intent, r),
    ensures
        r is Routed <==> exists|i: int| 0 <= i < agents.len() && spec_mode_matches(intent, #[trigger] agents[i].mode),
{
    lemma_first_match(agents, intent);
}

/// Which agents take a brief: for each intent, exactly the agents of its own
/// mode (implement, review, explore, test) and the assist agents; an assist
/// brief goes to assist agents only.
pub proof fn law_who_takes_a_brief(mode: AgentMode)
    ensures
        spec_mode_matches(Intent::Implement, mode) <==> (mode == AgentMode::Implement || mode
            == AgentMode::Assist),
        spec_mode_matches(Intent::Review, mode) <==> (mode == AgentMode::Review || mode == AgentMode::Assist),
        spec_mode_matches(Intent::Explore, mode) <==> (mode == AgentMode::Explore || mode == AgentMode::Assist),
        spec_mode_matches(Intent::Test, mode) <==> (mode == AgentMode::Test || mode == AgentMode::Assist),
        spec_mode_matches(Intent::Assist, mode) <==> mode == AgentMode::Assist,
{
}

/// The agent a brief is routed to can take it: its mode is the one made for
/// the brief's intent (the mode `AgentMode::from` gives), or assist.
pub proof fn law_routed_agent_fits(agents: Seq<Agent>, intent: Intent, r: DispatchResult)
    requires
        dispatch_outcome(agents, intent, r),
        r is Routed,
    ensures
        exists|i: int|
            0 <= i < agents.len() && #[trigger] agents[i].name@ == r->agent_name@ && (agents[i].mode
                == <AgentMode as vstd::std_specs::convert::FromSpec<Intent>>::from_spec(intent)
                || agents[i].mode == AgentMode::Assist),
{
    lemma_first_match(agents, intent);
    let i = first_match(agents, intent)->0;
    assert(agents[i].name@ == r->agent_name@);
}

} // verus!
