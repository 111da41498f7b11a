use arconaut::cli::{format_message, parse_command, parse_mode, Command};
use arconaut::context::{estimate_tokens, Context};
use arconaut::message::{ContentPart, Message, Role};
use arconaut::registry::ToolRegistry;
use arconaut::tool::{ToolError, ToolResult};
use arconaut::agent::AgentMode;
use arconaut::tool::ToolError as RegistryError;

#[test]
fn parse_quit_command() {
    assert_eq!(parse_command("/quit"), Some(Command::Quit));
}

#[test]
fn parse_non_command() {
    assert_eq!(parse_command("hello"), None);
    assert_eq!(parse_command("/quit now"), None);
    assert_eq!(parse_command("quit"), None);
}

#[test]
fn tool_result_success() {
    let result = ToolResult::success(vec![ContentPart::text("ok")]);
    match result {
        ToolResult::Success { output } => {
            assert_eq!(output, vec![ContentPart::text("ok")]);
        }
        _ => panic!("Expected Success variant"),
    }
}

#[test]
fn tool_result_error() {
    let result = ToolResult::error("it broke", "failed");
    match result {
        ToolResult::Error { message, brief } => {
            assert_eq!(message, "it broke");
            assert_eq!(brief, "failed");
        }
        _ => panic!("Expected Error variant"),
    }
}

#[test]
fn tool_error_text() {
    let e = ToolError::new("it broke", "failed");
    assert_eq!(e.to_text(), "failed: it broke");
}

#[test]
fn message_has_timestamp() {
    let before = chrono::Utc::now().timestamp_micros();
    let msg = Message::user("test");
    let after = chrono::Utc::now().timestamp_micros();
    let ts = msg.timestamp.expect("timestamp should be set");
    assert!(ts >= before && ts <= after);
}

#[test]
fn message_convenience_constructors() {
    let user = Message::user("hello");
    assert_eq!(user.role, Role::User);
    assert_eq!(user.content, vec![ContentPart::text("hello")]);

    let assistant = Message::assistant("hi there");
    assert_eq!(assistant.role, Role::Assistant);

    let system = Message::system("you are helpful");
    assert_eq!(system.role, Role::System);
}

#[test]
fn content_part_as_text() {
    assert_eq!(ContentPart::text("abc").as_text(), Some("abc"));
    let image = ContentPart::Image { url: "http://x".to_string() };
    assert_eq!(image.as_text(), None);
}

#[test]
fn tool_result_message() {
    let msg = Message::tool_result("call-1", ToolResult::success(vec![ContentPart::text("out")]));
    assert_eq!(msg.role, Role::Tool);
    match &msg.content[0] {
        ContentPart::ToolResult { tool_result } => {
            assert_eq!(tool_result.tool_call_id, "call-1");
            assert!(!tool_result.is_error);
            assert_eq!(tool_result.output, vec![ContentPart::text("out")]);
        }
        _ => panic!("expected a tool result part"),
    }
    let err = Message::tool_result("call-2", ToolResult::error("bad", "oops"));
    match &err.content[0] {
        ContentPart::ToolResult { tool_result } => {
            assert!(tool_result.is_error);
            assert_eq!(tool_result.output, vec![ContentPart::text("bad")]);
        }
        _ => panic!("expected a tool result part"),
    }
}

#[test]
fn context_append_and_count() {
    let mut ctx = Context::new(1000);
    ctx.append_message(Message::user("hello world"));
    assert_eq!(ctx.token_count(), 2); // 11 chars / 4 = 2 (floor)
    assert_eq!(ctx.history().len(), 1);
}

#[test]
fn context_clear_resets() {
    let mut ctx = Context::new(1000);
    ctx.append_message(Message::user("a"));
    ctx.append_message(Message::assistant("b"));
    ctx.checkpoint();
    ctx.clear();
    assert!(ctx.history().is_empty());
    assert_eq!(ctx.token_count(), 0);
    assert_eq!(ctx.checkpoint_count(), 1); // preserved
}

#[test]
fn context_checkpoint_revert() {
    let mut ctx = Context::new(1000);
    let a = Message::user("A");
    let b = Message::assistant("B");
    let c = Message::user("C");

    ctx.append_message(a);
    let cp = ctx.checkpoint();
    ctx.append_message(b);
    ctx.append_message(c);
    assert_eq!(ctx.history().len(), 3);

    ctx.revert_to(cp).unwrap();
    assert_eq!(ctx.history().len(), 1);
    assert_eq!(ctx.token_count(), 0); // "A" = 1 char / 4 = 0 (floor)
    assert_eq!(ctx.checkpoint_count(), 1); // pruned
}

#[test]
fn context_revert_invalid_checkpoint() {
    let mut ctx = Context::new(1000);
    let err = ctx.revert_to(999).unwrap_err();
    assert_eq!(err.id, 999);
    assert_eq!(err.max, 0);
}

#[test]
fn token_estimate_accuracy() {
    let msg = Message::user(&"a".repeat(400));
    let mut ctx = Context::new(1000);
    ctx.append_message(msg);
    let count = ctx.token_count();
    // 400 chars / 4 = 100, within ±10% = 90-110
    assert!((90..=110).contains(&count), "token count {} not in range", count);
}

#[test]
fn token_estimate_counts_bytes_of_text_parts() {
    // "é" is two bytes in UTF-8: 8 of them make 16 bytes, 4 tokens.
    let msg = Message::user(&"é".repeat(8));
    assert_eq!(estimate_tokens(&msg), 4);
    let mixed = Message::new(
        Role::User,
        vec![ContentPart::text("abcd"), ContentPart::Image { url: "long image url".to_string() }],
    );
    assert_eq!(estimate_tokens(&mixed), 1);
}

#[test]
fn revert_twice_is_same_as_once() {
    let mut ctx = Context::new(1000);
    ctx.append_message(Message::user("first message here"));
    let cp = ctx.checkpoint();
    ctx.append_message(Message::user("second"));
    ctx.revert_to(cp).unwrap();
    let len = ctx.history().len();
    let tokens = ctx.token_count();
    ctx.revert_to(cp).unwrap();
    assert_eq!(ctx.history().len(), len);
    assert_eq!(ctx.token_count(), tokens);
}

#[test]
fn registry_lookup_by_name() {
    let mut reg: ToolRegistry<u32> = ToolRegistry::new();
    reg.register("read", 1);
    reg.register("write", 2);
    assert_eq!(reg.len(), 2);
    assert_eq!(*reg.lookup("write").unwrap(), 2);
    let err = reg.lookup("nope").unwrap_err();
    assert_eq!(err.message, "no tool named 'nope' is registered");
    assert_eq!(err.brief, "unknown tool");
}

#[test]
fn registry_replace_existing_tool() {
    let mut reg: ToolRegistry<u32> = ToolRegistry::new();
    reg.register("echo", 1);
    reg.register("echo", 7);
    assert_eq!(reg.len(), 1);
    assert_eq!(*reg.lookup("echo").unwrap(), 7);
    assert!(reg.contains("echo"));
    assert!(!reg.contains("Echo"));
}

#[test]
fn parse_mode_names() {
    assert_eq!(parse_mode("IMPL"), Some(AgentMode::Implement));
    assert_eq!(parse_mode("code"), Some(AgentMode::Implement));
    assert_eq!(parse_mode("Review"), Some(AgentMode::Review));
    assert_eq!(parse_mode("research"), Some(AgentMode::Explore));
    assert_eq!(parse_mode("test"), Some(AgentMode::Test));
    assert_eq!(parse_mode("help"), Some(AgentMode::Assist));
    assert_eq!(parse_mode("dance"), None);
}

#[test]
fn format_message_joins_text_parts() {
    let msg = Message::new(
        Role::Assistant,
        vec![ContentPart::text("a"), ContentPart::Image { url: "u".to_string() }, ContentPart::text("b")],
    );
    assert_eq!(format_message(&msg), "ab");
}

struct TestTool {
    name: &'static str,
    run: fn(serde_json::Value) -> Result<ToolResult, RegistryError>,
}

fn echo(args: serde_json::Value) -> Result<ToolResult, RegistryError> {
    Ok(ToolResult::success(vec![ContentPart::text(&args.to_string())]))
}

fn fail(_args: serde_json::Value) -> Result<ToolResult, RegistryError> {
    Err(RegistryError::new("intentional failure", "failed"))
}

fn register_tool(registry: &mut ToolRegistry<TestTool>, tool: TestTool) {
    let name = tool.name;
    registry.register(name, tool);
}

fn call_tool(registry: &ToolRegistry<TestTool>, name: &str, args: serde_json::Value) -> Result<ToolResult, RegistryError> {
    let tool = registry.lookup(name)?;
    (tool.run)(args)
}

#[test]
fn register_and_call() {
    let mut registry = ToolRegistry::new();
    register_tool(&mut registry, TestTool { name: "echo", run: echo });
    let result = call_tool(&registry, "echo", serde_json::Value::String("hello".to_string()));
    match result.unwrap() {
        ToolResult::Success { output } => {
            assert_eq!(output.len(), 1);
            match &output[0] {
                ContentPart::Text { text } => assert_eq!(text, "\"hello\""),
                _ => panic!("Expected text"),
            }
        }
        _ => panic!("Expected success"),
    }
}

#[test]
fn unknown_tool_returns_error() {
    let registry: ToolRegistry<TestTool> = ToolRegistry::new();
    let err = call_tool(&registry, "nonexistent", serde_json::Value::Null).unwrap_err();
    assert_eq!(err.brief, "unknown tool");
    assert!(err.message.contains("nonexistent"));
}

#[test]
fn list_tools() {
    let mut registry = ToolRegistry::new();
    register_tool(&mut registry, TestTool { name: "echo", run: echo });
    register_tool(&mut registry, TestTool { name: "fail", run: fail });
    assert_eq!(registry.len(), 2);
    assert_eq!(registry.at(0).name, "echo");
    assert_eq!(registry.at(1).name, "fail");
    assert!(call_tool(&registry, "fail", serde_json::Value::Null).is_err());
}

#[test]
fn case_sensitive_names() {
    let mut registry = ToolRegistry::new();
    register_tool(&mut registry, TestTool { name: "echo", run: echo });
    assert!(call_tool(&registry, "Echo", serde_json::Value::Null).is_err());
}

#[test]
fn replace_existing_tool() {
    let mut registry = ToolRegistry::new();
    register_tool(&mut registry, TestTool { name: "echo", run: echo });
    register_tool(&mut registry, TestTool { name: "fail", run: fail });
    register_tool(&mut registry, TestTool { name: "echo", run: fail });
    assert_eq!(registry.len(), 2);
    assert_eq!(registry.at(0).name, "echo");
    assert_eq!(registry.at(1).name, "fail");
    assert!(call_tool(&registry, "echo", serde_json::Value::Null).is_err());
}
