use arconaut::skills::{dedup_by_path, find_skill, scan_step, Skill, SkillScanStep, SkillSource};
use arconaut::anthropic::{
    anthropic_capabilities, blocks_to_parts, extract_system_messages, messages_url, AnthropicMessage,
    AnthropicProvider, BuildError, ContentBlock,
};
use arconaut::message::{ContentPart, Message, Role};
use arconaut::provider::{classify_error, ChatRequest, ModelCapability, ProviderError, TokenUsage, ToolDescriptor};
use arconaut::skills::SkillLoader;
use arconaut::tool::ToolResult;
use arconaut::tools::{
    command_result, gitignore_patterns, grep_file, grep_report, is_ignored, is_safe_command, plan_edit,
    read_selection, timeout_error, write_summary, Pattern,
};

#[test]
fn provider_model_info() {
    let provider = AnthropicProvider::new("test-key", "sonnet-4-6").unwrap();
    assert_eq!(provider.model_name(), "sonnet-4-6");
    assert_eq!(provider.max_context_size(), 200_000);
}

#[test]
fn provider_with_model() {
    let provider = AnthropicProvider::new("test-key", "sonnet-4-6").unwrap().with_model("opus-4-6");
    assert_eq!(provider.model_name(), "opus-4-6");
}

#[test]
fn provider_capabilities() {
    let provider = AnthropicProvider::new("test-key", "sonnet-4-6").unwrap();
    let caps = provider.capabilities();
    assert!(caps.contains(&ModelCapability::Text));
    assert!(caps.contains(&ModelCapability::ToolUse));
    assert!(caps.contains(&ModelCapability::Thinking));
    assert_eq!(anthropic_capabilities().len(), 3);
}

#[test]
fn provider_debug_redacts_key() {
    let provider = AnthropicProvider::new("secret123", "sonnet-4-6").unwrap();
    let debug = provider.debug_text();
    assert!(!debug.contains("secret123"));
    assert!(debug.contains("[REDACTED]"));
    assert_eq!(
        debug,
        "AnthropicProvider { model: \"sonnet-4-6\", base_url: \"https://api.anthropic.com/v1\", api_key: \"[REDACTED]\", max_tokens: 4096 }"
    );
}

#[test]
fn provider_builders_and_endpoint() {
    let provider = AnthropicProvider::new("k", "sonnet-4-6").unwrap().with_max_tokens(10).with_base_url("http://localhost:8080//");
    assert_eq!(provider.base_url(), "http://localhost:8080//");
    assert_eq!(provider.endpoint(), "http://localhost:8080/messages");
    assert_eq!(provider.api_key(), "k");
    assert!(provider.thinking_effort().is_none());
    assert!(provider.debug_text().ends_with("max_tokens: 10 }"));
}

#[test]
fn build_error_text() {
    let e = BuildError::InvalidClient("no tls".to_string());
    assert_eq!(e.to_text(), "failed to build HTTP client: no tls");
}

#[test]
fn request_body_from_conversation() {
    let provider = AnthropicProvider::new("k", "sonnet-4-6").unwrap();
    let schema: serde_json::Value = serde_json::from_str("{\"type\":\"object\"}").unwrap();
    let request = ChatRequest {
        messages: vec![Message::system("be nice"), Message::user("hi")],
        tools: vec![ToolDescriptor::new("read", "Read a file", schema.clone())],
        system_prompt: Some("ignored".to_string()),
    };
    let body = provider.build_request(request);
    assert_eq!(body.model, "sonnet-4-6");
    assert_eq!(body.max_tokens, 4096);
    assert_eq!(body.system, Some("be nice".to_string()));
    assert_eq!(body.messages.len(), 1);
    assert_eq!(body.messages[0].role, "user");
    let tools = body.tools.unwrap();
    assert_eq!(tools[0].name, "read");
    assert_eq!(tools[0].input_schema, schema);

    let bare = ChatRequest { messages: vec![Message::user("hi")], tools: vec![], system_prompt: Some("sys".to_string()) };
    let body = provider.build_request(bare);
    assert_eq!(body.system, Some("sys".to_string()));
    assert!(body.tools.is_none());
}

#[test]
fn error_classification_auth() {
    let err = classify_error(401, "invalid key".to_string());
    assert!(matches!(err, ProviderError::Auth { status_code: 401, .. }));
    assert!(err.to_text().contains("invalid key"));
}

#[test]
fn error_classification_rate_limit() {
    let err = classify_error(429, "rate limited".to_string());
    assert!(matches!(err, ProviderError::RateLimit { status_code: 429, .. }));
}

#[test]
fn error_classification_server() {
    let err = classify_error(500, "overloaded".to_string());
    assert!(matches!(err, ProviderError::Server { status_code: 500, .. }));
    assert!(err.to_text().contains("overloaded"));
}

#[test]
fn error_classification_context_overflow() {
    let err = classify_error(400, "context length exceeded".to_string());
    assert!(matches!(err, ProviderError::ContextOverflow { .. }));
}

#[test]
fn error_classification_other_codes() {
    assert!(matches!(classify_error(403, "x".to_string()), ProviderError::Auth { status_code: 403, .. }));
    assert!(matches!(classify_error(404, "not found".to_string()), ProviderError::Client { status_code: 404, .. }));
    assert!(matches!(classify_error(418, "Too Many Tokens".to_string()), ProviderError::ContextOverflow { .. }));
    assert!(matches!(classify_error(302, "moved".to_string()), ProviderError::Other { .. }));
    assert!(matches!(classify_error(504, "gateway".to_string()), ProviderError::Server { .. }));
}

#[test]
fn token_usage_total() {
    assert_eq!(TokenUsage { input: 3, output: 4 }.total(), 7);
}

#[test]
fn message_conversion_user() {
    let am = AnthropicMessage::from_message(Message::user("hello"));
    assert_eq!(am.role, "user");
    assert_eq!(am.content, "hello");
}

#[test]
fn message_conversion_assistant() {
    let am = AnthropicMessage::from_message(Message::assistant("hi there"));
    assert_eq!(am.role, "assistant");
    assert_eq!(am.content, "hi there");
}

#[test]
fn message_conversion_tool_result() {
    let msg = Message::tool_result("call-1", ToolResult::success(vec![ContentPart::text("file contents here")]));
    let am = AnthropicMessage::from_message(msg);
    assert_eq!(am.role, "user");
    assert_eq!(am.content, "file contents here");
}

#[test]
fn extract_system_messages_works() {
    let messages = vec![Message::system("you are helpful"), Message::user("hello"), Message::system("be concise")];
    let (system, rest) = extract_system_messages(messages);
    assert_eq!(system, Some("you are helpful\nbe concise".to_string()));
    assert_eq!(rest.len(), 1);
    assert_eq!(rest[0].role, Role::User);
}

#[test]
fn extract_without_system_messages() {
    let (system, rest) = extract_system_messages(vec![Message::user("a"), Message::system("")]);
    assert_eq!(system, None);
    assert_eq!(rest.len(), 1);
}

#[test]
fn url_construction_no_double_slash() {
    let provider = AnthropicProvider::new("test", "sonnet-4-6").unwrap().with_base_url("https://api.anthropic.com/v1/");
    assert_eq!(provider.endpoint(), "https://api.anthropic.com/v1/messages");
    assert_eq!(messages_url("https://api.anthropic.com/v1"), "https://api.anthropic.com/v1/messages");
}

#[test]
fn response_blocks_decoded() {
    let blocks = vec![
        ContentBlock { block_type: "text".to_string(), text: Some("hi".to_string()), id: None, name: None, input_json: None },
        ContentBlock {
            block_type: "tool_use".to_string(),
            text: None,
            id: None,
            name: Some("bash".to_string()),
            input_json: Some("{}".to_string()),
        },
        ContentBlock { block_type: "thinking".to_string(), text: Some("hmm".to_string()), id: None, name: None, input_json: None },
    ];
    let parts = blocks_to_parts(blocks);
    assert_eq!(parts.len(), 2);
    assert_eq!(parts[0], ContentPart::text("hi"));
    match &parts[1] {
        ContentPart::ToolCall { tool_call } => {
            assert_eq!(tool_call.id, "");
            assert_eq!(tool_call.function.name, "bash");
            assert_eq!(tool_call.function.arguments, "{}");
        }
        _ => panic!("expected a tool call"),
    }
}

#[test]
fn frontmatter_parsed() {
    let (name, desc) =
        SkillLoader::parse_frontmatter("---\nname: rust-refactor\ndescription: Refactor Rust code\n---\n\n# Rust Refactoring\n").unwrap();
    assert_eq!(name, "rust-refactor");
    assert_eq!(desc, "Refactor Rust code");
}

#[test]
fn no_frontmatter_fallback() {
    let (name, desc) = SkillLoader::parse_frontmatter("# My Skill\n\nDoes useful things.\nMore.").unwrap();
    assert_eq!(name, "My Skill");
    assert_eq!(desc, "Does useful things.");
    assert!(SkillLoader::parse_frontmatter("---\nname: x\n").is_none());
    assert!(SkillLoader::parse_frontmatter("---\ndescription: only\n---\n").is_none());
}

#[test]
fn yaml_values() {
    assert_eq!(SkillLoader::extract_yaml_value("name: a\n  description:  b c \n", "description"), Some("b c".to_string()));
    assert_eq!(SkillLoader::extract_yaml_value("name:\n", "name"), None);
    assert_eq!(SkillLoader::extract_yaml_value("other: 1", "name"), None);
}

#[test]
fn skill_loader_dirs() {
    let loader = SkillLoader::new("/u/skills", "/p/skills");
    assert_eq!(loader.user_dir, "/u/skills");
    assert_eq!(loader.project_dir, "/p/skills");
}

#[test]
fn read_tool_offset_and_limit() {
    assert_eq!(read_selection("a\nb\nc\nd\ne\n", Some(2), Some(2)), "b\nc");
    let contents = "line1\nline2\nline3\nline4\nline5";
    assert_eq!(read_selection(contents, Some(2), Some(2)), "line2\nline3");
    assert_eq!(read_selection(contents, None, None), contents);
    assert_eq!(read_selection(contents, Some(10), None), "");
    assert_eq!(read_selection("a\r\nb\n", None, None), "a\nb");
}

#[test]
fn write_tool_summary() {
    assert_eq!(write_summary("/tmp/x.txt", "héllo"), "Wrote 6 bytes to /tmp/x.txt");
}

#[test]
fn edit_tool_exact_replace() {
    let (text, count) = plan_edit("edit.txt", "foo bar baz", "bar", "qux", false).unwrap();
    assert_eq!(text, "foo qux baz");
    assert_eq!(count, 1);
    let (text, count) = plan_edit("f.rs", "fn foo() {}\nfn bar() {}", "foo", "baz", false).unwrap();
    assert_eq!(text, "fn baz() {}\nfn bar() {}");
    assert_eq!(count, 1);
}

#[test]
fn edit_tool_no_match_error() {
    let err = plan_edit("edit.txt", "foo bar baz", "nope", "qux", false).unwrap_err();
    assert_eq!(err.message, "old_string not found in 'edit.txt'");
    assert_eq!(err.brief, "no match");
}

#[test]
fn edit_tool_replace_all() {
    let (text, count) = plan_edit("edit.txt", "a a a", "a", "b", true).unwrap();
    assert_eq!(text, "b b b");
    assert_eq!(count, 3);
}

#[test]
fn edit_tool_ambiguous_match() {
    let err = plan_edit("edit.txt", "a a a", "a", "b", false).unwrap_err();
    assert_eq!(err.message, "old_string appears 3 times in 'edit.txt'; use replace_all=true to replace all");
    assert_eq!(err.brief, "ambiguous match");
}

#[test]
fn bash_tool_rejects_chained_commands() {
    assert!(is_safe_command("ls -la").is_ok());
    let err = is_safe_command("ls && rm -rf /").unwrap_err();
    assert_eq!(err.message, "command contains forbidden sequence '&&'; run single commands only");
    assert_eq!(err.brief, "unsafe command");
    for cmd in ["echo a && echo b", "echo a; echo b", "echo a | cat", "a || b", "echo `x`", "x $() y"] {
        assert!(is_safe_command(cmd).is_err(), "should reject: {}", cmd);
    }
    // Only the literal sequence `$()` is screened.
    assert!(is_safe_command("echo $(whoami)").is_ok());
    let err = is_safe_command("a\nb").unwrap_err();
    assert_eq!(err.message, "command contains forbidden sequence '\\n'; run single commands only");
}

#[test]
fn bash_tool_captures_output() {
    match command_result(0, "hello\n", "", true) {
        ToolResult::Success { output } => {
            assert_eq!(output, vec![ContentPart::text("exit_code: 0\nstdout:\nhello\n\nstderr:\n")]);
        }
        _ => panic!("expected success"),
    }
    match command_result(-2, "", "boom", false) {
        ToolResult::Error { message, brief } => {
            assert_eq!(message, "exit_code: -2\nstdout:\n\nstderr:\nboom");
            assert_eq!(brief, "command exited with code -2");
        }
        _ => panic!("expected error"),
    }
}

#[test]
fn bash_tool_timeout() {
    let e = timeout_error(100);
    assert_eq!(e.message, "command timed out after 100ms");
    assert_eq!(e.brief, "timeout");
}

#[test]
fn grep_tool_finds_matches() {
    let hello = Pattern::new("hello").unwrap();
    let mut found = grep_file("dir/a.txt", "hello world\nfoo bar\n", &hello);
    found.extend(grep_file("dir/b.txt", "hello moon\n", &hello));
    let output = grep_report(&found);
    assert!(output.contains("a.txt:1:hello world"));
    assert!(output.contains("b.txt:1:hello moon"));
    let pattern = Pattern::new("fn \\w+").unwrap();
    let hits = grep_file("src/a.rs", "fn main() {}\nlet x = 1;\nfn other() {}", &pattern);
    assert_eq!(hits, vec!["src/a.rs:1:fn main() {}".to_string(), "src/a.rs:3:fn other() {}".to_string()]);
    assert!(Pattern::new("(").is_err());
    assert_eq!(grep_report(&Vec::new()), "No matches found.");
}

#[test]
fn grep_tool_respects_gitignore() {
    let ignore = gitignore_patterns("ignored.txt\n");
    assert!(!is_ignored("dir/a.txt", &ignore));
    assert!(is_ignored("dir/ignored.txt", &ignore));
    let patterns = gitignore_patterns("# comment\ntarget/\n\n*.log\n");
    assert!(patterns.contains(&"target/".to_string()));
    assert!(is_ignored("project/target/debug/x", &patterns));
    assert!(!is_ignored("src/main.rs", &patterns));
}

#[test]
fn skill_scan_steps() {
    assert_eq!(scan_step("skills/refactor.md", true, false, false), SkillScanStep::ReadFile);
    assert_eq!(scan_step("skills/notes.txt", true, false, false), SkillScanStep::Skip);
    assert_eq!(scan_step("skills/tidy", false, true, true), SkillScanStep::ReadSkillFile);
    assert_eq!(scan_step("skills/deep", false, true, false), SkillScanStep::Descend);
}

#[test]
fn skills_from_files_and_lookup() {
    let a = Skill::from_file_content("/u/a.md", "---\nname: a\ndescription: first\n---\n", SkillSource::User).unwrap();
    assert_eq!(a.description, "first");
    assert!(Skill::from_file_content("/u/b.md", "---\ndescription: x\n---\n", SkillSource::User).is_none());
    let again = Skill::from_file_content("/u/./a.md", "---\nname: a2\n---\n", SkillSource::Project).unwrap();
    let skills = dedup_by_path(vec![a, again]);
    assert_eq!(skills.len(), 1);
    assert_eq!(skills[0].name, "a2");
    assert_eq!(find_skill(&skills, "a2").unwrap().source, SkillSource::Project);
    let err = find_skill(&skills, "zzz").unwrap_err();
    assert_eq!(err.message, "skill 'zzz' not found");
    assert_eq!(err.brief, "not found");
}

#[test]
fn discovery_skill_md() {
    // a directory holding a SKILL.md is one skill, described by that file
    assert_eq!(scan_step("skills/rust-refactor", false, true, true), SkillScanStep::ReadSkillFile);
    let skill = Skill::from_file_content(
        "skills/rust-refactor/SKILL.md",
        "---\nname: rust-refactor\ndescription: Refactor Rust code\n---\n\n# Rust Refactoring\n",
        SkillSource::User,
    )
    .unwrap();
    assert_eq!(skill.name, "rust-refactor");
    assert_eq!(skill.description, "Refactor Rust code");
}

#[test]
fn discovery_recursive() {
    // directories without a SKILL.md are searched, and a .md file in them is a skill
    assert_eq!(scan_step("skills/deep", false, true, false), SkillScanStep::Descend);
    assert_eq!(scan_step("skills/deep/nested", false, true, false), SkillScanStep::Descend);
    assert_eq!(scan_step("skills/deep/nested/tip.md", true, false, false), SkillScanStep::ReadFile);
    let skill = Skill::from_file_content(
        "skills/deep/nested/tip.md",
        "---\nname: deep-tip\ndescription: A deep tip\n---\n\n# Tip\n",
        SkillSource::User,
    )
    .unwrap();
    assert_eq!(skill.name, "deep-tip");
}

#[test]
fn lazy_metadata() {
    let skill = Skill::from_file_content(
        "skills/test.md",
        "---\nname: test-skill\ndescription: desc\n---\n\n# Body\nhidden content\n",
        SkillSource::Project,
    )
    .unwrap();
    assert_eq!(skill.name, "test-skill");
    assert_eq!(skill.description, "desc");
    assert_eq!(skill.file_path, "skills/test.md");
}

#[test]
fn provider_from_client_outcomes() {
    let failed = AnthropicProvider::from_client(Err("no tls".to_string()), "k", "m");
    match failed {
        Err(e) => {
            assert_eq!(e, BuildError::InvalidClient("no tls".to_string()));
            assert_eq!(e.to_text(), "failed to build HTTP client: no tls");
        }
        Ok(_) => panic!("expected an error"),
    }
    let built = AnthropicProvider::from_client(Ok(reqwest::Client::new()), "k", "m").unwrap();
    assert_eq!(built.model_name(), "m");
    assert_eq!(built.api_key(), "k");
    assert_eq!(built.base_url(), "https://api.anthropic.com/v1");
}
