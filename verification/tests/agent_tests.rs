use arconaut::agent::{Agent, AgentMode, AgentRegistry};
use arconaut::compaction::compact_history;
use arconaut::context::Context;
use arconaut::dedup::Deduplicator;
use arconaut::dispatch::{mode_matches, Brief, DispatchResult, Dispatcher, Intent};
use arconaut::hooks::MetricsHook;
use arconaut::injection::{CompositeInjector, Injector, SystemPromptInjector};
use arconaut::message::{ContentPart, FunctionCall, Message, Role, ToolCall};
use arconaut::cli::turn_output;
use arconaut::provider::{ChatResponse, ProviderError, TokenUsage};
use arconaut::session::Session;
use arconaut::soul::{MockProvider, SoulError, StopReason, TurnEngine, TurnResult, TurnStep};
use arconaut::tool::ToolResult;

#[test]
fn create_all_modes() {
    for mode in [AgentMode::Implement, AgentMode::Review, AgentMode::Explore, AgentMode::Test, AgentMode::Assist] {
        let agent = Agent::new("test", "T", mode);
        assert_eq!(agent.mode, mode);
    }
}

#[test]
fn registry_lookup() {
    let mut reg = AgentRegistry::new();
    reg.register(Agent::new("alpha", "A", AgentMode::Implement));
    reg.register(Agent::new("beta", "B", AgentMode::Review));
    assert_eq!(reg.list().len(), 2);
    assert!(reg.get("alpha").is_some());
    assert!(reg.get("gamma").is_none());
}

#[test]
fn agent_defaults_and_builders() {
    let agent = Agent::new("a", "A", AgentMode::Assist).with_model("other").with_max_steps(7);
    assert_eq!(agent.model_name, "other");
    assert_eq!(agent.max_steps, 7);
    let plain = Agent::new("a", "A", AgentMode::Assist);
    assert_eq!(plain.model_name, "");
    assert_eq!(plain.max_steps, 50);
    assert_eq!(plain.context.max_tokens(), 200_000);
}

#[test]
fn registry_replaces_same_name() {
    let mut reg = AgentRegistry::new();
    reg.register(Agent::new("alpha", "A", AgentMode::Implement));
    reg.register(Agent::new("alpha", "Z", AgentMode::Review));
    assert_eq!(reg.len(), 1);
    assert_eq!(reg.get("alpha").unwrap().callsign, "Z");
    let removed = reg.remove("alpha").unwrap();
    assert_eq!(removed.mode, AgentMode::Review);
    assert_eq!(reg.len(), 0);
}

#[test]
fn registry_get_mut_changes_in_place() {
    let mut reg = AgentRegistry::new();
    reg.register(Agent::new("alpha", "A", AgentMode::Implement));
    reg.register(Agent::new("beta", "B", AgentMode::Review));
    {
        let a = reg.get_mut("alpha").unwrap();
        a.callsign = "Q".to_string();
        a.name = "omega".to_string();
    }
    assert!(reg.get_mut("gamma").is_none());
    assert_eq!(reg.get("alpha").unwrap().callsign, "Q");
    assert_eq!(reg.get("alpha").unwrap().name, "omega");
    assert!(reg.get("omega").is_none());
    let names: Vec<String> = reg.list().iter().map(|a| a.callsign.clone()).collect();
    assert_eq!(names, vec!["Q".to_string(), "B".to_string()]);
}

fn compact_like_engine(threshold: f64, window: usize, ctx: &mut Context) -> bool {
    let max = ctx.max_tokens();
    if max == 0 {
        return false;
    }
    if (ctx.token_count() as f64 / max as f64) < threshold {
        return false;
    }
    compact_history(ctx, window)
}

#[test]
fn no_compaction_under_threshold() {
    let mut ctx = Context::new(10_000);
    ctx.append_message(Message::user("hello"));
    assert!(!compact_like_engine(0.9, 10, &mut ctx));
    assert_eq!(ctx.history().len(), 1);
}

#[test]
fn compaction_reduces_tokens() {
    let mut ctx = Context::new(100);
    for i in 0..20 {
        ctx.append_message(Message::user(&format!(
            "this is a much longer message number {} with lots of text",
            i
        )));
    }
    let before = ctx.token_count();
    assert!(compact_like_engine(0.5, 2, &mut ctx));
    let after = ctx.token_count();
    assert!(after < before, "token count should decrease: {} -> {}", before, after);
    assert_eq!(ctx.history().len(), 3); // summary + 2 preserved
    assert_eq!(ctx.history()[0].role, Role::System);
    assert!(ctx.history()[0].content[0].as_text().unwrap().starts_with("[SUMMARY]"));
}

#[test]
fn compaction_preserves_recent() {
    let mut ctx = Context::new(100);
    for i in 0..10 {
        ctx.append_message(Message::user(&format!("msg{}", i)));
    }
    compact_like_engine(0.5, 3, &mut ctx);
    let history = ctx.history();
    let last_preserved = &history[history.len() - 3];
    assert_eq!(last_preserved.content[0].as_text().unwrap(), "msg7");
}

#[test]
fn no_compaction_when_too_few_messages() {
    let mut ctx = Context::new(100);
    for i in 0..5 {
        ctx.append_message(Message::user(&format!("msg{}", i)));
    }
    assert!(!compact_like_engine(0.1, 10, &mut ctx));
    assert_eq!(ctx.history().len(), 5);
}

#[test]
fn compaction_summary_text() {
    let mut ctx = Context::new(100);
    for i in 0..6 {
        ctx.append_message(Message::user(&format!("message number {} padded out", i)));
    }
    let tokens = ctx.token_count();
    assert!(compact_history(&mut ctx, 2));
    let expected = format!("[SUMMARY] 4 previous messages summarized ({} tokens)", tokens);
    assert_eq!(ctx.history()[0].content[0].as_text().unwrap(), expected);
    assert_eq!(ctx.history()[1].content[0].as_text().unwrap(), "message number 4 padded out");
    assert_eq!(ctx.history()[2].content[0].as_text().unwrap(), "message number 5 padded out");
}

fn ok_result() -> ToolResult {
    ToolResult::success(vec![ContentPart::text("ok")])
}

#[test]
fn identical_calls_cached() {
    let mut dedup = Deduplicator::new();
    let args = serde_json::from_str::<serde_json::Value>("{\"x\": 1}").unwrap();
    let result = ok_result();
    dedup.insert("echo", &args, ok_result());
    let cached = dedup.get("echo", &args);
    assert!(cached.is_some());
    assert_eq!(cached.unwrap(), result);
}

#[test]
fn different_args_not_cached() {
    let mut dedup = Deduplicator::new();
    let args1 = serde_json::from_str::<serde_json::Value>("{\"x\": 1}").unwrap();
    dedup.insert("echo", &args1, ok_result());
    let args2 = serde_json::from_str::<serde_json::Value>("{\"x\": 2}").unwrap();
    assert!(dedup.get("echo", &args2).is_none());
}

#[test]
fn cache_cleared() {
    let mut dedup = Deduplicator::new();
    let args = serde_json::from_str::<serde_json::Value>("{\"x\": 1}").unwrap();
    dedup.insert("echo", &args, ok_result());
    dedup.clear();
    assert!(dedup.get("echo", &args).is_none());
}

#[test]
fn dedup_keys_by_json_text() {
    let mut dedup = Deduplicator::new();
    let spaced = serde_json::from_str::<serde_json::Value>("{ \"x\" :   1 }").unwrap();
    let tight = serde_json::from_str::<serde_json::Value>("{\"x\":1}").unwrap();
    dedup.insert("echo", &spaced, ok_result());
    assert!(dedup.get("echo", &tight).is_some());
    assert!(dedup.get("other", &tight).is_none());
    assert!(dedup.get_by_text("echo", "{\"x\":1}").is_some());
}

#[test]
fn dispatch_finds_matching_agent() {
    let mut reg = AgentRegistry::new();
    reg.register(Agent::new("coder", "C", AgentMode::Implement));
    reg.register(Agent::new("critic", "R", AgentMode::Review));
    let dispatcher = Dispatcher::new(reg);
    let brief = Brief::new("fix bug", "fix the login bug", Intent::Implement);
    match dispatcher.dispatch(&brief) {
        DispatchResult::Routed { agent_name } => assert_eq!(agent_name, "coder"),
        other => panic!("expected Routed, got {:?}", other),
    }
}

#[test]
fn dispatch_falls_back_to_assist() {
    let mut reg = AgentRegistry::new();
    reg.register(Agent::new("helper", "H", AgentMode::Assist));
    let dispatcher = Dispatcher::new(reg);
    let brief = Brief::new("question", "how does this work", Intent::Explore);
    match dispatcher.dispatch(&brief) {
        DispatchResult::Routed { agent_name } => assert_eq!(agent_name, "helper"),
        other => panic!("expected Routed, got {:?}", other),
    }
}

#[test]
fn dispatch_spawns_when_no_match() {
    let reg = AgentRegistry::new();
    let dispatcher = Dispatcher::new(reg);
    let brief = Brief::new("test", "write tests", Intent::Test);
    match dispatcher.dispatch(&brief) {
        DispatchResult::SpawnNeeded { suggested_mode, .. } => {
            assert_eq!(suggested_mode, AgentMode::Test);
        }
        other => panic!("expected SpawnNeeded, got {:?}", other),
    }
}

#[test]
fn spawn_for_creates_agent() {
    let reg = AgentRegistry::new();
    let dispatcher = Dispatcher::new(reg);
    let brief = Brief::new("impl", "implement feature", Intent::Implement);
    let agent = dispatcher.spawn_for(&brief, "impl-1", "I1");
    assert_eq!(agent.mode, AgentMode::Implement);
    assert_eq!(agent.name, "impl-1");
}

#[test]
fn assist_agents_take_every_intent() {
    for intent in [Intent::Implement, Intent::Review, Intent::Explore, Intent::Test, Intent::Assist] {
        assert!(mode_matches(intent, AgentMode::Assist));
    }
    assert!(mode_matches(Intent::Review, AgentMode::Review));
    assert!(!mode_matches(Intent::Review, AgentMode::Implement));
}

#[test]
fn brief_tags() {
    let brief = Brief::new("t", "d", Intent::Review).with_tags(vec!["x".to_string(), "y".to_string()]);
    assert_eq!(brief.tags, vec!["x".to_string(), "y".to_string()]);
    assert_eq!(brief.title, "t");
}

#[test]
fn system_prompt_injected_at_head() {
    let injector = SystemPromptInjector::new("you are helpful");
    let mut ctx = Context::new(200_000);
    ctx.append_message(Message::user("hello"));
    injector.inject(&mut ctx);
    assert_eq!(ctx.history()[0].role, Role::System);
    assert_eq!(ctx.history()[0].content[0].as_text().unwrap(), "you are helpful");
}

#[test]
fn system_prompt_not_duplicated() {
    let injector = SystemPromptInjector::new("you are helpful");
    let mut ctx = Context::new(200_000);
    ctx.append_message(Message::system("you are helpful"));
    injector.inject(&mut ctx);
    assert_eq!(ctx.history().len(), 1);
}

#[test]
fn composition_order() {
    let mut composite = CompositeInjector::new();
    composite.add(SystemPromptInjector::new("first"));
    composite.add(SystemPromptInjector::new("second"));
    let mut ctx = Context::new(200_000);
    composite.inject(&mut ctx);
    assert_eq!(ctx.history().len(), 2);
    assert_eq!(ctx.history()[0].content[0].as_text().unwrap(), "first");
    assert_eq!(ctx.history()[1].content[0].as_text().unwrap(), "second");
}

#[test]
fn duplicate_prompt_skipped() {
    let mut composite = CompositeInjector::new();
    composite.add(SystemPromptInjector::new("same"));
    composite.add(SystemPromptInjector::new("same"));
    let mut ctx = Context::new(200_000);
    composite.inject(&mut ctx);
    assert_eq!(ctx.history().len(), 1);
}

#[test]
fn prompt_matching_ignores_surrounding_space() {
    let injector = SystemPromptInjector::new("  be brief ");
    let mut ctx = Context::new(200_000);
    ctx.append_message(Message::system("be brief"));
    injector.inject(&mut ctx);
    assert_eq!(ctx.history().len(), 1);
}

fn finished_turn(steps: usize) -> TurnResult {
    TurnResult {
        message: Message::assistant("ok"),
        steps_taken: steps,
        completed: true,
        stop_reason: StopReason::Completed,
    }
}

#[test]
fn metrics_hook_tracks_turns() {
    let mut hook = MetricsHook::new();
    let result = finished_turn(3);
    hook.post_turn(&result);
    assert_eq!(hook.turn_count, 1);
    assert_eq!(hook.total_steps, 3);
}

#[test]
fn metrics_hook_wraps_on_overflow() {
    let mut hook = MetricsHook::new();
    hook.total_steps = usize::MAX;
    hook.post_turn(&finished_turn(2));
    assert_eq!(hook.total_steps, 1);
    assert_eq!(hook.total_input_tokens, 0);
}

#[test]
fn audit_partition() {
    let session = Session::new("debug-2026-06-07", "implementer", Some("/home/u"));
    assert!(session.audit_partition.contains("implementer"));
    assert!(session.audit_partition.contains("debug"));
    assert!(session.audit_log_path().ends_with("audit.jsonl"));
}

#[test]
fn session_paths() {
    let session = Session::new("s1", "agent", Some("/home/u"));
    assert_eq!(session.audit_partition, "agent-s1");
    assert_eq!(session.state_path, "/home/u/.local/share/arconaut/sessions/agent-s1/state.json");
    assert_eq!(session.audit_log_path(), "/home/u/.local/share/arconaut/sessions/agent-s1/audit.jsonl");
    let no_home = Session::new("s1", "agent", None);
    assert_eq!(no_home.state_path, ".arconaut/sessions/agent-s1/state.json");
}

fn text_response(text: &str) -> ChatResponse {
    ChatResponse { message: Message::assistant(text), usage: TokenUsage { input: 10, output: 5 }, id: "resp".to_string() }
}

fn tool_response(calls: Vec<ToolCall>) -> ChatResponse {
    let content = calls.into_iter().map(|c| ContentPart::ToolCall { tool_call: c }).collect();
    ChatResponse { message: Message::new(Role::Assistant, content), usage: TokenUsage { input: 10, output: 5 }, id: "resp".to_string() }
}

fn echo_call() -> ToolCall {
    ToolCall {
        id: "call-1".to_string(),
        function: FunctionCall { name: "echo".to_string(), arguments: "{\"msg\":\"world\"}".to_string() },
    }
}

#[test]
fn turn_completes_without_tools() {
    let mut provider = MockProvider::new(vec![text_response("hello")]);
    let mut engine = TurnEngine::new();
    engine.begin("hi");
    assert!(engine.can_step());
    let reply = provider.chat(engine.build_request(Vec::new())).unwrap();
    match engine.on_response(reply.message) {
        TurnStep::Finished(result) => {
            assert!(result.completed);
            assert_eq!(result.steps_taken, 1);
            assert_eq!(result.stop_reason, StopReason::Completed);
            assert_eq!(result.message.content[0].as_text().unwrap(), "hello");
        }
        TurnStep::RunTools(_) => panic!("no tools were asked for"),
    }
}

#[test]
fn turn_executes_single_tool() {
    let mut provider = MockProvider::new(vec![tool_response(vec![echo_call()]), text_response("done")]);
    let mut engine = TurnEngine::new();
    engine.begin("run echo");
    let first = provider.chat(engine.build_request(Vec::new())).unwrap();
    let calls = match engine.on_response(first.message) {
        TurnStep::RunTools(calls) => calls,
        TurnStep::Finished(_) => panic!("expected tool calls"),
    };
    assert_eq!(calls.len(), 1);
    assert_eq!(calls[0].function.name, "echo");
    engine.record_tool_result(&calls[0].id, ToolResult::success(vec![ContentPart::text("world")]));
    let second = provider.chat(engine.build_request(Vec::new())).unwrap();
    match engine.on_response(second.message) {
        TurnStep::Finished(result) => {
            assert!(result.completed);
            assert_eq!(result.steps_taken, 2);
            assert_eq!(result.message.content[0].as_text().unwrap(), "done");
        }
        TurnStep::RunTools(_) => panic!("expected the turn to finish"),
    }
    // user, assistant (tool call), tool result, assistant
    assert_eq!(engine.context().history().len(), 4);
    assert_eq!(engine.context().history()[2].role, Role::Tool);
}

#[test]
fn turn_max_steps_enforced() {
    let mut provider = MockProvider::new(vec![
        tool_response(vec![echo_call()]),
        tool_response(vec![echo_call()]),
        tool_response(vec![echo_call()]),
    ]);
    let mut engine = TurnEngine::new().with_max_steps(2);
    engine.begin("loop");
    let mut finished = None;
    while engine.can_step() {
        let reply = provider.chat(engine.build_request(Vec::new())).unwrap();
        match engine.on_response(reply.message) {
            TurnStep::Finished(r) => {
                finished = Some(r);
                break;
            }
            TurnStep::RunTools(calls) => {
                for c in calls {
                    engine.record_tool_result(&c.id, ToolResult::success(vec![ContentPart::text("x")]));
                }
            }
        }
    }
    assert!(finished.is_none());
    let result = engine.finish_at_limit();
    assert!(!result.completed);
    assert_eq!(result.steps_taken, 2);
    assert_eq!(result.stop_reason, StopReason::MaxStepsReached);
    assert_eq!(result.message.role, Role::Assistant);
}

#[test]
fn mock_provider_defaults_to_done() {
    let mut provider = MockProvider::new(Vec::new());
    let engine = TurnEngine::new();
    let reply = provider.chat(engine.build_request(Vec::new())).unwrap();
    assert_eq!(reply.message.content[0].as_text().unwrap(), "done");
    assert_eq!(reply.id, "mock");
    assert_eq!(reply.usage.total(), 0);
    assert_eq!(provider.model_name(), "mock");
}

#[test]
fn turn_provider_error_aborts() {
    let mut engine = TurnEngine::new();
    engine.begin("fail");
    assert!(engine.can_step());
    let reply: Result<Message, ProviderError> = Err(ProviderError::Network { message: "boom".to_string() });
    let result: Result<TurnResult, SoulError> = match engine.on_reply(reply) {
        Err(e) => Err(e),
        Ok(_) => panic!("a failed model call must end the turn"),
    };
    assert!(result.is_err());
    match &result {
        Err(SoulError::Provider(ProviderError::Network { message })) => assert_eq!(message, "boom"),
        _ => panic!("expected the provider's error"),
    }
    let printed = turn_output(&result).unwrap_err();
    assert!(printed.starts_with("error: "));
    assert!(printed.contains("boom"));
    assert_eq!(engine.context().history().len(), 1);
}
