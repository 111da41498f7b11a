use arconaut::bus::{plan_bus_call, run_bus_request, BusArgs};
use arconaut::context::Context;
use arconaut::injection::{Injector, SystemPromptInjector};
use arconaut::bus::{Bus, BusMessage, Presence, Target};
use arconaut::cli::{provider_error_event, shell_error_event, soul_action, startup_notice, turn_output, turn_report, SoulAction};
use arconaut::anthropic::BuildError;
use arconaut::docs::{Document, DocumentIndex, DocumentKind};
use arconaut::message::Message;
use arconaut::pdf::{lines_from_events, LineStyle, MdEvent, PdfGenerator};
use arconaut::provider::ProviderError;
use arconaut::soul::{SoulError, StopReason, TurnResult};
use arconaut::tools::{walk_step_for, WalkStep};
use arconaut::tui::{AppState, ChatItem, Focus, Key, KeyPress, SoulCommand, TuiEvent};
use arconaut::utils::UtilsBin;
use arconaut::vars::{VariableScope, VariableStore};
use arconaut::widgets::{cell_style, chat_item_line, chat_view, input_cursor_x, status_bar, terminal_rows, CellAttrs, TermColor, Tone};
use arconaut::message::ContentPart;
use arconaut::tool::ToolResult;
use arconaut::ghostty::{osc133_sequence, theme_query_sequence, PromptZone};
use arconaut::shell::{strip_line_end, OutputBuffer};

fn key(k: Key) -> KeyPress {
    KeyPress { key: k, control: false, alt: false }
}

#[test]
fn typing_and_submitting_input() {
    let mut app = AppState::new();
    app.handle_key(key(Key::Char('h')));
    app.handle_key(key(Key::Char('i')));
    assert_eq!(app.input_text(), "hi");
    let (cmd, split) = app.handle_key(key(Key::Enter));
    assert_eq!(cmd, Some(SoulCommand::UserInput("hi".to_string())));
    assert!(split.is_none());
    assert_eq!(app.input_text(), "");
    assert_eq!(app.messages, vec![ChatItem::User("hi".to_string())]);
}

#[test]
fn editing_keys_move_cursor_by_characters() {
    let mut app = AppState::new();
    for c in "héllo".chars() {
        app.handle_key(key(Key::Char(c)));
    }
    app.handle_key(key(Key::Left));
    app.handle_key(key(Key::Backspace));
    assert_eq!(app.input_text(), "hélo");
    app.handle_key(key(Key::Home));
    app.handle_key(key(Key::Delete));
    assert_eq!(app.input_text(), "élo");
    assert_eq!(app.input_cursor, 0);
}

#[test]
fn control_c_quits_and_tab_cycles_focus() {
    let mut app = AppState::new();
    app.handle_key(key(Key::Tab));
    assert_eq!(app.focus, Focus::Chat);
    app.handle_key(key(Key::BackTab));
    assert_eq!(app.focus, Focus::Input);
    let (cmd, _) = app.handle_key(KeyPress { key: Key::Char('c'), control: true, alt: false });
    assert_eq!(cmd, Some(SoulCommand::Quit));
    assert!(!app.running);
}

#[test]
fn assistant_event_shows_message() {
    let mut app = AppState::new();
    app.handle_event(TuiEvent::AssistantMessage(Message::assistant("answer")));
    assert_eq!(app.messages.last(), Some(&ChatItem::Assistant("answer".to_string())));
}

#[test]
fn soul_actions_for_commands() {
    assert_eq!(
        soul_action(SoulCommand::UserInput("x".to_string())),
        SoulAction::RunTurn { input: "x".to_string(), status: "Thinking...".to_string() }
    );
    assert_eq!(soul_action(SoulCommand::TerminalOutput("ls".to_string())), SoulAction::SendToShell("ls".to_string()));
    assert_eq!(soul_action(SoulCommand::Interrupt), SoulAction::Notify("Interrupted".to_string()));
    assert_eq!(soul_action(SoulCommand::Quit), SoulAction::Stop);
    assert_eq!(soul_action(SoulCommand::Resize(10, 20)), SoulAction::Ignore);
}

#[test]
fn turn_reports() {
    let done = TurnResult { message: Message::assistant("hi"), steps_taken: 1, completed: true, stop_reason: StopReason::Completed };
    let events = turn_report(Ok(done));
    assert_eq!(events.len(), 2);
    assert!(matches!(events[1], TuiEvent::TurnComplete));
    let err = SoulError::Provider(ProviderError::Network { message: "down".to_string() });
    let events = turn_report(Err(err.clone()));
    match &events[0] {
        TuiEvent::Error { message } => assert_eq!(message, "provider error: network error: down"),
        _ => panic!("expected an error event"),
    }
    assert_eq!(turn_output(&Err(err)), Err("error: provider error: network error: down".to_string()));
    match shell_error_event("broken pipe") {
        TuiEvent::Error { message } => assert_eq!(message, "shell error: broken pipe"),
        _ => panic!("expected an error event"),
    }
}

#[test]
fn chat_lines_and_scrolling() {
    let items = vec![ChatItem::User("a".to_string()), ChatItem::Error("b".to_string())];
    let line = chat_item_line(&items[1]);
    assert_eq!(line[0].text, "! ");
    assert_eq!(line[0].tone, Tone::Error);
    assert!(line[0].bold);
    let all = chat_view(&items, 0, 10);
    assert_eq!(all.len(), 4);
    assert!(all[1].is_empty());
    let scrolled = chat_view(&items, 100, 10);
    assert_eq!(scrolled.len(), 1);
    let short = chat_view(&items, 1, 2);
    assert_eq!(short.len(), 2);
    assert_eq!(short[1][1].text, "b");
}

#[test]
fn status_bar_and_cursor() {
    let bar = status_bar("Ready", Focus::Terminal);
    assert_eq!(bar[0].text, " [TERM] ");
    assert_eq!(bar[1].text, " Ready ");
    assert_eq!(input_cursor_x(5, 3, 10, 20), 13);
    assert_eq!(input_cursor_x(50, 60, 10, 20), 29);
    assert_eq!(input_cursor_x(0, 0, 0, 0), 0);
}

#[test]
fn terminal_cells_and_rows() {
    let style = cell_style(CellAttrs {
        fg: TermColor::Indexed(1),
        bg: TermColor::Default,
        inverse: true,
        bold: true,
        italic: false,
        underline: true,
        dim: false,
    });
    assert_eq!(style.fg, TermColor::Default);
    assert_eq!(style.bg, TermColor::Indexed(1));
    assert!(style.bold && style.underlined);
    assert_eq!(terminal_rows(5, 3, 0), vec![0, 1, 2]);
    assert_eq!(terminal_rows(5, 10, 3), vec![3, 4, 4, 4, 4]);
    assert!(terminal_rows(0, 10, 3).is_empty());
}

#[test]
fn parse_markdown_events() {
    let md = "# Heading\n\nParagraph text.\n\n```\ncode block\n```\n";
    let lines = PdfGenerator::parse_markdown(md);
    assert!(lines.iter().any(|(s, t)| *s == LineStyle::H1 && t == "Heading"));
    assert!(lines.iter().any(|(s, t)| *s == LineStyle::Normal && t == "Paragraph text."));
    assert!(lines.iter().any(|(s, t)| *s == LineStyle::Code && t == "code block"));
}

#[test]
fn markdown_breaks_and_subheadings() {
    let lines = PdfGenerator::parse_markdown("## Sub `x`\n\nfirst\nsecond\n");
    assert_eq!(lines[0], (LineStyle::H2, "Sub x".to_string()));
    assert_eq!(lines[1], (LineStyle::Normal, "first second".to_string()));
}

#[test]
fn page_layout_positions() {
    let lines = vec![(LineStyle::H1, "T".to_string()), (LineStyle::Normal, "body".to_string())];
    let placed = PdfGenerator::layout(&lines);
    assert_eq!(placed.len(), 2);
    assert_eq!((placed[0].size, placed[0].y), (18, 750));
    assert_eq!((placed[1].size, placed[1].y), (11, 728));
    let many: Vec<(LineStyle, String)> = (0..100).map(|i| (LineStyle::Normal, format!("{}", i))).collect();
    let placed = PdfGenerator::layout(&many);
    // 750 down to 50 in steps of 15 points.
    assert_eq!(placed.len(), 47);
    assert!(placed.iter().all(|p| p.y >= 50));
}

#[test]
fn document_kinds() {
    assert_eq!(DocumentKind::from_path("notes/readme.md"), DocumentKind::Markdown);
    assert_eq!(DocumentKind::from_path("report.pdf"), DocumentKind::Pdf);
    assert_eq!(DocumentKind::from_path("main.rs"), DocumentKind::Text);
    assert_eq!(DocumentKind::from_path("archive.tar.gz"), DocumentKind::Other);
    assert_eq!(DocumentKind::from_path(".bashrc"), DocumentKind::Other);
    assert_eq!(DocumentKind::from_path("Makefile"), DocumentKind::Other);
}

#[test]
fn filter_kind() {
    let docs = vec![Document::for_file("/d/a.md", None), Document::for_file("/d/b.txt", None)];
    let md = DocumentIndex::filter_kind(&docs, DocumentKind::Markdown);
    assert_eq!(md.len(), 1);
    assert_eq!(md[0].name, "a");
}

#[test]
fn sort_by_date() {
    let mut docs = vec![
        Document::for_file("/d/old.md", Some(10)),
        Document::for_file("/d/none.md", None),
        Document::for_file("/d/new.md", Some(20)),
        Document::for_file("/d/also-old.md", Some(10)),
    ];
    DocumentIndex::sort_by_date(&mut docs);
    let names: Vec<&str> = docs.iter().map(|d| d.name.as_str()).collect();
    assert_eq!(names, vec!["new", "old", "also-old", "none"]);
}

#[test]
fn document_index_dirs() {
    let index = DocumentIndex::new(vec!["/a".to_string(), "/b".to_string()]);
    assert_eq!(index.directories(), &vec!["/a".to_string(), "/b".to_string()]);
}

fn json(text: &str) -> serde_json::Value {
    serde_json::from_str(text).unwrap()
}

#[test]
fn session_ephemeral() {
    let mut store = VariableStore::new();
    store.set("temp", json("42"));
    assert_eq!(store.get("temp"), Some(&json("42")));
}

#[test]
fn precedence() {
    let mut store = VariableStore::new();
    store.set_scoped(VariableScope::System, "key", json("\"system\""));
    store.set_scoped(VariableScope::Project, "key", json("\"project\""));
    store.set_scoped(VariableScope::Session, "key", json("\"session\""));
    assert_eq!(store.get("key"), Some(&json("\"session\"")));
}

#[test]
fn project_overrides_system() {
    let mut store = VariableStore::new();
    store.set_scoped(VariableScope::Project, "k", json("1"));
    store.set_scoped(VariableScope::System, "k", json("2"));
    assert_eq!(store.get("k"), Some(&json("1")));
    assert_eq!(store.get_scoped(VariableScope::System, "k"), Some(&json("2")));
    assert_eq!(store.get("missing"), None);
}

#[test]
fn substitution() {
    let mut store = VariableStore::new();
    store.set_scoped(VariableScope::System, "name", json("\"world\""));
    let result = store.substitute("Hello {var:system.name}!");
    assert_eq!(result, "Hello world!");
}

#[test]
fn substitution_renders_non_strings() {
    let mut store = VariableStore::new();
    store.set("n", json("[1, 2]"));
    assert_eq!(store.substitute("{var:session.n} {var:project.n} {var:session.n}"), "[1,2] {var:project.n} [1,2]");
}

fn bus_message(body: &str) -> BusMessage {
    BusMessage { from: "a".to_string(), to: Target::Topic("#general".to_string()), body: body.to_string() }
}

#[test]
fn broadcast_reaches_subscribers() {
    let mut bus = Bus::new();
    let mut rx = bus.join_topic("#general");
    assert!(bus.broadcast(
        "#general",
        BusMessage {
            from: "alpha".to_string(),
            to: Target::Topic("#general".to_string()),
            body: "hello all".to_string(),
        },
    ));
    let msg = rx.try_recv().unwrap();
    assert_eq!(msg.from, "alpha");
    assert_eq!(msg.body, "hello all");
    assert!(!bus.broadcast("#nowhere", bus_message("lost")));
}

#[test]
fn whisper_reaches_mailbox() {
    let mut bus = Bus::new();
    let mut rx = bus.register_mailbox("beta");
    assert!(bus.whisper(
        "beta",
        BusMessage { from: "alpha".to_string(), to: Target::Agent("beta".to_string()), body: "psst".to_string() },
    ));
    let msg = rx.try_recv().unwrap();
    assert_eq!(msg.body, "psst");
    bus.unregister_mailbox("beta");
    assert!(!bus.whisper("beta", bus_message("gone")));
}

#[test]
fn presence_tracked() {
    let mut bus = Bus::new();
    bus.set_presence("gamma", Presence { online: true, current_task: Some("refactor".to_string()) });
    let p = bus.get_presence("gamma").unwrap();
    assert!(p.online);
    assert_eq!(p.current_task, Some("refactor".to_string()));
}

#[test]
fn walk_steps() {
    let patterns = vec!["target/".to_string()];
    assert_eq!(walk_step_for("/p/target", true, false, false, &patterns), WalkStep::Skip);
    assert_eq!(walk_step_for("/p/target", true, false, true, &patterns), WalkStep::Descend);
    assert_eq!(walk_step_for("/p/.git", true, false, true, &patterns), WalkStep::Skip);
    assert_eq!(walk_step_for("/p/src/a.rs", false, true, false, &patterns), WalkStep::Search);
}

fn only_text(r: ToolResult) -> String {
    match r {
        ToolResult::Success { output } => match &output[0] {
            ContentPart::Text { text } => text.clone(),
            _ => panic!("expected text"),
        },
        _ => panic!("expected success"),
    }
}

#[test]
fn uuid_valid() {
    let text = only_text(UtilsBin::uuid());
    assert_eq!(text.len(), 36);
    assert!(text.contains('-'));
    assert_eq!(text.chars().nth(14), Some('4'));
}

#[test]
fn timestamp_iso() {
    let text = only_text(UtilsBin::timestamp());
    assert!(text.contains('T'));
    assert!(text.contains('+') || text.contains('Z'));
}

#[test]
fn timestamp_has_rfc3339_utc_shape() {
    let text = only_text(UtilsBin::timestamp());
    let t: Vec<char> = text.chars().collect();
    assert!(t.len() >= 25);
    assert_eq!((t[4], t[7], t[10], t[13], t[16]), ('-', '-', 'T', ':', ':'));
    assert!(text.ends_with("+00:00"));
}

#[test]
fn hash_consistent() {
    let a = only_text(UtilsBin::hash(Some("hello")).unwrap());
    let b = only_text(UtilsBin::hash(Some("hello")).unwrap());
    assert_eq!(a, b);
    assert!(a.chars().all(|c| c.is_ascii_hexdigit()));
    let err = UtilsBin::hash(None).unwrap_err();
    assert_eq!(err.message, "missing 'input'");
    assert_eq!(err.brief, "bad args");
}

#[test]
fn base64_roundtrip() {
    let encoded = only_text(UtilsBin::base64(Some("hello world"), false).unwrap());
    assert_eq!(encoded, "aGVsbG8gd29ybGQ=");
    let decoded = only_text(UtilsBin::base64(Some(&encoded), true).unwrap());
    assert_eq!(decoded, "hello world");
}

#[test]
fn base64_errors() {
    let err = UtilsBin::base64(Some("!!!"), true).unwrap_err();
    assert!(err.message.starts_with("decode error: "));
    assert_eq!(err.brief, "decode error");
    let err = UtilsBin::base64(Some("/w=="), true).unwrap_err();
    assert!(err.message.starts_with("invalid utf8: "));
    assert_eq!(only_text(UtilsBin::base64(Some("f"), false).unwrap()), "Zg==");
    assert_eq!(only_text(UtilsBin::base64(Some("fo"), false).unwrap()), "Zm8=");
    assert_eq!(only_text(UtilsBin::base64(Some("foo"), false).unwrap()), "Zm9v");
}

#[test]
fn json_format() {
    let text = only_text(UtilsBin::json_format(Some("{\"a\":1}")).unwrap());
    assert!(text.contains("\"a\": 1"));
    let err = UtilsBin::json_format(Some("{oops")).unwrap_err();
    assert!(err.message.starts_with("invalid json: "));
    assert_eq!(err.brief, "parse error");
}

#[test]
fn utility_tool_names() {
    let names: Vec<&str> = UtilsBin::tool_list().iter().map(|t| t.0).collect();
    assert_eq!(names, vec!["uuid", "timestamp", "hash", "base64", "json_format"]);
}

#[test]
fn system_load() {
    let mut store = VariableStore::new();
    store.load_system(Some("api_key = \"secret\"\n"));
    assert_eq!(store.get("api_key"), Some(&json("\"secret\"")));
}

#[test]
fn project_load() {
    let mut store = VariableStore::new();
    store.load_project(Some("[project]\nname = \"arconaut\"\n"));
    assert_eq!(store.get("project.name"), Some(&json("\"arconaut\"")));
}

#[test]
fn load_nested_and_invalid() {
    let mut store = VariableStore::new();
    store.load_project(Some("[a]\n[a.b]\nc = 3\nd = [1, 2]\n"));
    assert_eq!(store.get("a.b.c"), Some(&json("3")));
    assert_eq!(store.get("a.b.d"), Some(&json("[1, 2]")));
    store.load_system(Some("not = = toml"));
    store.load_system(None);
    assert_eq!(store.get_scoped(VariableScope::System, "not"), None);
}

#[test]
fn bus_tool_requests() {
    let args = |action: Option<&str>, topic: Option<&str>, agent: Option<&str>| BusArgs {
        action: action.map(|s| s.to_string()),
        topic: topic.map(|s| s.to_string()),
        to: None,
        message: Some("hello".to_string()),
        agent: agent.map(|s| s.to_string()),
    };
    let mut bus = Bus::new();
    let mut rx = bus.join_topic("#t");
    let request = plan_bus_call(args(Some("broadcast"), Some("#t"), None)).unwrap();
    assert_eq!(only_text(run_bus_request(&mut bus, request)), "Broadcasted to #t");
    let got = rx.try_recv().unwrap();
    assert_eq!(got.from, "self");
    assert_eq!(got.body, "hello");
    let request = plan_bus_call(args(Some("presence"), None, None)).unwrap();
    assert_eq!(only_text(run_bus_request(&mut bus, request)), "No agents online");
    bus.set_presence("alice", Presence { online: true, current_task: Some("review".to_string()) });
    let request = plan_bus_call(args(Some("presence"), None, Some("alice"))).unwrap();
    assert_eq!(only_text(run_bus_request(&mut bus, request)), "alice: online=true, task=Some(\"review\")");
    let request = plan_bus_call(args(Some("presence"), None, Some("bob"))).unwrap();
    assert_eq!(only_text(run_bus_request(&mut bus, request)), "bob: unknown");
    let err = plan_bus_call(args(None, None, None)).unwrap_err();
    assert_eq!(err.message, "missing 'action' argument");
    let err = plan_bus_call(args(Some("dance"), None, None)).unwrap_err();
    assert_eq!(err.message, "unknown bus action: dance");
    assert_eq!(err.brief, "bad action");
    let err = plan_bus_call(args(Some("broadcast"), None, None)).unwrap_err();
    assert_eq!(err.message, "missing 'topic' for broadcast");
}

#[test]
fn injecting_twice_is_injecting_once() {
    let injector = SystemPromptInjector::new("rules");
    let mut ctx = Context::new(1000);
    ctx.append_message(Message::system("other"));
    ctx.append_message(Message::user("hi"));
    injector.inject(&mut ctx);
    let after_once: Vec<String> = ctx.history().iter().map(|m| format!("{:?}", m.content)).collect();
    injector.inject(&mut ctx);
    let after_twice: Vec<String> = ctx.history().iter().map(|m| format!("{:?}", m.content)).collect();
    assert_eq!(after_once, after_twice);
    assert_eq!(ctx.history().len(), 3);
    assert_eq!(ctx.history()[1].content[0].as_text(), Some("rules"));
}

#[test]
fn no_presence_for_unknown() {
    let bus = Bus::new();
    assert!(bus.get_presence("nobody").is_none());
}

#[test]
fn list_presence() {
    let mut bus = Bus::new();
    bus.set_presence("a", Presence::default());
    bus.set_presence("b", Presence::default());
    let list = bus.list_presence();
    assert_eq!(list.len(), 2);
    assert_eq!(list[0].0, "a");
    assert_eq!(list[1].0, "b");
}

#[test]
fn osc133_sequences_no_panic() {
    assert_eq!(osc133_sequence(PromptZone::Prompt), b"\x1b]133;A\x07".to_vec());
    assert_eq!(osc133_sequence(PromptZone::Input), b"\x1b]133;B\x07".to_vec());
    assert_eq!(osc133_sequence(PromptZone::Output), b"\x1b]133;C\x07".to_vec());
    assert_eq!(osc133_sequence(PromptZone::EndOutput), b"\x1b]133;D\x07".to_vec());
}

#[test]
fn mode_2031_query_no_panic() {
    assert_eq!(theme_query_sequence(), b"\x1b]996\x07".to_vec());
}

#[test]
fn shell_lines_lose_only_their_line_endings() {
    assert_eq!(strip_line_end("hello\n"), "hello");
    assert_eq!(strip_line_end("a\n\n\n"), "a");
    assert_eq!(strip_line_end("no end"), "no end");
    assert_eq!(strip_line_end("\n"), "");
    assert_eq!(strip_line_end("x\r\n"), "x\r");
}

#[test]
fn shell_output_buffer_keeps_and_takes() {
    let mut buf = OutputBuffer::new();
    assert_eq!(buf.record_line("one\n"), "one");
    assert_eq!(buf.record_line("two\n"), "two");
    assert_eq!(buf.text(), "one\ntwo\n");
    assert_eq!(buf.take(), "one\ntwo\n");
    assert_eq!(buf.text(), "");
}

fn bus_args(action: &str) -> BusArgs {
    BusArgs { action: Some(action.to_string()), topic: None, to: None, message: None, agent: None }
}

#[test]
fn bus_broadcast_tool() {
    let mut bus = Bus::new();
    let mut rx = bus.join_topic("#test");
    let args = BusArgs { topic: Some("#test".to_string()), message: Some("hello world".to_string()), ..bus_args("broadcast") };
    let result = run_bus_request(&mut bus, plan_bus_call(args).unwrap());
    match result {
        ToolResult::Success { output } => {
            assert!(output[0].as_text().unwrap().contains("Broadcasted"));
        }
        _ => panic!("expected success"),
    }
    let msg = rx.try_recv().unwrap();
    assert_eq!(msg.body, "hello world");
}

#[test]
fn bus_whisper_tool() {
    let mut bus = Bus::new();
    let mut rx = bus.register_mailbox("alice");
    let args = BusArgs { to: Some("alice".to_string()), message: Some("secret".to_string()), ..bus_args("whisper") };
    let _ = run_bus_request(&mut bus, plan_bus_call(args).unwrap());
    let msg = rx.try_recv().unwrap();
    assert_eq!(msg.body, "secret");
}

#[test]
fn bus_presence_tool() {
    let mut bus = Bus::new();
    bus.set_presence("bob", Presence { online: true, current_task: Some("coding".to_string()) });
    let args = BusArgs { agent: Some("bob".to_string()), ..bus_args("presence") };
    let result = run_bus_request(&mut bus, plan_bus_call(args).unwrap());
    match result {
        ToolResult::Success { output } => {
            let text = output[0].as_text().unwrap();
            assert!(text.contains("online=true"));
            assert!(text.contains("coding"));
        }
        _ => panic!("expected success"),
    }
}

#[test]
fn paragraphs_become_separate_lines() {
    let lines = PdfGenerator::parse_markdown("One.\n\nTwo.");
    assert_eq!(lines, vec![(LineStyle::Normal, "One.".to_string()), (LineStyle::Normal, "Two.".to_string())]);
    let items = PdfGenerator::parse_markdown("- a\n- b\n");
    assert_eq!(items, vec![(LineStyle::Normal, "a".to_string()), (LineStyle::Normal, "b".to_string())]);
    let events = vec![
        MdEvent::Other,
        MdEvent::Text("One.".to_string()),
        MdEvent::BlockEnd,
        MdEvent::Other,
        MdEvent::Text("Two.".to_string()),
        MdEvent::BlockEnd,
    ];
    assert_eq!(lines_from_events(&events).len(), 2);
}

#[test]
fn agent_task_start_notices() {
    match startup_notice(false) {
        Some(TuiEvent::Status(s)) => assert_eq!(s, "ANTHROPIC_API_KEY not set \u{2014} running in echo mode"),
        other => panic!("unexpected {:?}", other),
    }
    assert!(startup_notice(true).is_none());
    match provider_error_event(&BuildError::InvalidClient("tls".to_string())) {
        TuiEvent::Error { message } => {
            assert_eq!(message, "Anthropic provider error: failed to build HTTP client: tls")
        }
        other => panic!("unexpected {:?}", other),
    }
}
