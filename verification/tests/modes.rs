use pixie_cli::compat::MapCtx;
use pixie_cli::json::Json;
use pixie_cli::modes::interactive::{
    banner, compacted_line, handle_slash, input_prompt, model_answer, parse_slash, repl_step,
    thinking_answer, turn_status_line, ReplAction, ReplEvent, SessionView, SlashAction, SlashCommand,
};
use pixie_cli::modes::run::{
    compaction_notice, exit_code, record_turn_usage, transcript, RunOutcome,
};
use pixie_cli::modes::stream_json::{
    extract_user_text, make_ctx, opening_line, step_for_line, step_for_value, turn_lines, Step,
    Wire, WireAction, WireEvent,
};
use pixie_cli::types::{
    AgentEvent, AssistantMessage, ContentBlock, Cost, Message, StopReason, Usage, UserMessage,
};

fn json(text: &str) -> Json {
    Json::parse(text).unwrap()
}

fn view() -> SessionView {
    SessionView {
        model_id: "sonnet".to_string(),
        tool_names: vec!["read".to_string(), "bash".to_string()],
        system_prompt: "You help.".to_string(),
        estimated_tokens: 1200,
        context_window: 200000,
        context_percent: 1,
        total_usage: Usage {
            input: 10,
            output: 20,
            cache_read: 30,
            cache_write: 40,
            cost: Cost::default(),
        },
        cost: "0.001500".to_string(),
    }
}

fn slash(input: &str) -> (Vec<String>, SlashAction) {
    handle_slash(&parse_slash(input), &view(), false)
}

#[test]
fn record_turn_usage_sums_every_turn_not_just_the_last() {
    let mut total = Usage::default();
    let mut last = None;
    let turn = |input, output| Usage { input, output, ..Usage::default() };
    record_turn_usage(&mut total, &mut last, &turn(100, 50));
    record_turn_usage(&mut total, &mut last, &turn(200, 10));
    record_turn_usage(&mut total, &mut last, &turn(0, 5));

    assert_eq!(total.input, 300, "input must sum all turns");
    assert_eq!(total.output, 65, "output must sum all turns");
    assert_eq!(
        last.as_ref().unwrap().output,
        5,
        "`last` still remembers the most recent turn"
    );
}

#[test]
fn outcomes_gather_the_events() {
    let mut total = Usage::default();
    let mut outcome = RunOutcome::new();
    let price = |dollars: f64| serde_json::Number::from_f64(dollars);
    let turn = |so_far: f64| Usage {
        input: 3,
        cost: Cost { total: price(0.5), so_far: price(so_far) },
        ..Usage::default()
    };
    assert!(!outcome.observe(&mut total, AgentEvent::Usage(turn(0.5))));
    assert!(!outcome.observe(&mut total, AgentEvent::Usage(turn(1.0))));
    assert_eq!(total.input, 6);
    assert_eq!(total.cost.total, price(1.0));
    assert_eq!(outcome.last_usage, Some(turn(1.0)));
    assert!(!outcome.observe(&mut total, AgentEvent::Other));
    assert!(!outcome.had_error);
    let messages = vec![Message::User(UserMessage::text("kept".to_string()))];
    assert!(outcome.observe(&mut total, AgentEvent::AgentEnd { messages }));
    assert_eq!(outcome.take_transcript(Vec::new()).len(), 1);
    assert!(outcome.take_transcript(Vec::new()).is_empty());
    assert_eq!(transcript(Some(vec![1, 2]), vec![3]), vec![1, 2]);
    assert_eq!(transcript(None, vec![3]), vec![3]);
    assert!(!RunOutcome::default().had_error);
}

#[test]
fn failed_turns_are_noticed() {
    let failing = |stop_reason: StopReason, error: Option<&str>| {
        let mut message = AssistantMessage::empty();
        message.stop_reason = stop_reason;
        message.error_message = error.map(|e| e.to_string());
        let mut outcome = RunOutcome::new();
        outcome.observe(&mut Usage::default(), AgentEvent::TurnEnd { message });
        outcome.had_error
    };
    assert!(failing(StopReason::Error, None));
    assert!(failing(StopReason::Aborted, None));
    assert!(failing(StopReason::Stop, Some("overloaded")));
    assert!(!failing(StopReason::Stop, None));
    assert!(!failing(StopReason::Length, None));
    assert!(!failing(StopReason::ToolUse, None));

    let mut outcome = RunOutcome::new();
    outcome.observe(&mut Usage::default(), AgentEvent::Error("boom".to_string()));
    outcome.observe(&mut Usage::default(), AgentEvent::Other);
    assert!(outcome.had_error);
    assert_eq!(exit_code(outcome.had_error), 1);
    assert_eq!(exit_code(false), 0);
}

#[test]
fn compaction_is_announced_only_where_it_dropped_something() {
    assert_eq!(compaction_notice(0, true), None);
    assert_eq!(
        compaction_notice(12, false).as_deref(),
        Some("  ↳ context near limit: compacted 12 message(s)")
    );
    assert_eq!(
        compaction_notice(1, true).as_deref(),
        Some("\x1b[2m  ↳ context near limit: compacted 1 message(s)\x1b[0m")
    );
}

#[test]
fn extracts_text_from_block_content() {
    let v = json(
        "{\"type\":\"user\",\"message\":{\"role\":\"user\",\
         \"content\":[{\"type\":\"text\",\"text\":\"hello\"}]}}",
    );
    assert_eq!(extract_user_text(&v).as_deref(), Some("hello"));
}

#[test]
fn joins_multiple_text_blocks() {
    let v = json(
        "{\"type\":\"user\",\"message\":{\"content\":[\
         {\"type\":\"text\",\"text\":\"a\"},\
         {\"type\":\"image\",\"source\":{}},\
         {\"type\":\"text\",\"text\":\"b\"}]}}",
    );
    assert_eq!(extract_user_text(&v).as_deref(), Some("a\nb"));
}

#[test]
fn accepts_shorthand_string_content() {
    let v = json("{\"message\":{\"content\":\"just a string\"}}");
    assert_eq!(extract_user_text(&v).as_deref(), Some("just a string"));
}

#[test]
fn ignores_lines_without_user_text() {
    assert_eq!(extract_user_text(&json("{\"type\":\"system\"}")), None);
    assert_eq!(
        extract_user_text(&json("{\"message\":{\"content\":[{\"type\":\"image\"}]}}")),
        None
    );
    assert_eq!(extract_user_text(&json("{\"message\":{\"content\":\"   \"}}")), None);
}

#[test]
fn shorthand_text_is_not_trimmed() {
    let v = json("{\"message\":{\"content\":\" padded \"}}");
    assert_eq!(extract_user_text(&v).as_deref(), Some(" padded "));
    assert_eq!(extract_user_text(&json("{\"message\":{\"content\":7}}")), None);
    assert_eq!(extract_user_text(&json("{\"message\":[]}")), None);
    let v = json("{\"message\":{\"content\":[{\"type\":\"text\"},{\"text\":\"x\"},7]}}");
    assert_eq!(extract_user_text(&v), None);
    let v = json("{\"message\":{\"content\":[{\"type\":\"text\",\"text\":\"\"}]}}");
    assert_eq!(extract_user_text(&v), None);
}

#[test]
fn blank_blocks_are_no_prompt() {
    let blank = "{\"type\":\"user\",\"message\":{\"content\":[\
                 {\"type\":\"text\",\"text\":\"\"},{\"type\":\"text\",\"text\":\" \"}]}}";
    assert_eq!(extract_user_text(&json(blank)), None);
    assert!(matches!(step_for_line(blank), Step::Wait));
    let v = json(
        "{\"message\":{\"content\":[{\"type\":\"text\",\"text\":\"\"},\
         {\"type\":\"text\",\"text\":\"x \"}]}}",
    );
    assert_eq!(extract_user_text(&v).as_deref(), Some("\nx "));
}

#[test]
fn lines_of_input_are_sorted() {
    assert!(matches!(step_for_line("  \n"), Step::Wait));
    assert!(matches!(step_for_line("{not json}\n"), Step::Wait));
    assert!(matches!(step_for_line("{\"type\":\"ping\"}"), Step::Wait));
    assert!(matches!(step_for_line(" {\"type\":\"close\"} "), Step::Close));
    assert!(matches!(step_for_line("{\"type\":\"end\",\"message\":{\"content\":\"x\"}}"), Step::Close));
    match step_for_line("{\"type\":\"user\",\"message\":{\"content\":\"go\"}}\n") {
        Step::Turn(prompt) => assert_eq!(prompt, "go"),
        other => panic!("unexpected step {other:?}"),
    }
    match step_for_value(&json("{\"type\":5,\"message\":{\"content\":\"go\"}}")) {
        Step::Turn(prompt) => assert_eq!(prompt, "go"),
        other => panic!("unexpected step {other:?}"),
    }
}

#[test]
fn the_exit_code_tells_of_any_failed_turn() {
    let mut wire = Wire::new();
    let line = |s: &str| WireEvent::Line(s.to_string());
    assert!(matches!(wire.step(&line("\n")), WireAction::Read));
    match wire.step(&line("{\"message\":{\"content\":\"go\"}}")) {
        WireAction::Turn(prompt) => assert_eq!(prompt, "go"),
        other => panic!("unexpected action {other:?}"),
    }
    assert!(matches!(wire.step(&WireEvent::TurnDone { had_error: false }), WireAction::Read));
    assert!(matches!(wire.step(&WireEvent::Eof), WireAction::Exit(0)));
    assert!(matches!(wire.step(&WireEvent::TurnDone { had_error: true }), WireAction::Read));
    assert!(matches!(wire.step(&WireEvent::TurnDone { had_error: false }), WireAction::Read));
    assert!(matches!(wire.step(&WireEvent::Eof), WireAction::Exit(1)));
    assert!(matches!(wire.step(&line("{\"type\":\"close\"}")), WireAction::Exit(1)));
    assert!(!Wire::default().had_error);
    assert!(matches!(wire.start(None), WireAction::Read));
    assert!(matches!(wire.start(Some("seed".to_string())), WireAction::Turn(p) if p == "seed"));
}

#[test]
fn turns_are_printed_line_by_line() {
    let mut ctx: MapCtx = make_ctx("sonnet", "/work", "sess", "plan");
    let first = opening_line(&ctx, vec!["read".to_string()]);
    assert!(first.starts_with("{\"type\":\"system\",\"subtype\":\"init\",\"cwd\":\"/work\""));
    assert!(first.contains("\"permissionMode\":\"plan\""));

    let mut message = AssistantMessage::empty();
    message.content.push(ContentBlock::Text { text: "line\nbreak".to_string() });
    message.text = "line\nbreak".to_string();
    let (lines, ended) =
        turn_lines(&AgentEvent::MessageEnd(Message::Assistant(message)), &mut ctx, 5);
    assert!(!ended);
    assert_eq!(lines.len(), 1);
    assert!(!lines[0].contains('\n'));
    assert_eq!(ctx.duration_ms, 0);

    let end = AgentEvent::AgentEnd { messages: Vec::new() };
    let (lines, ended) = turn_lines(&end, &mut ctx, 42);
    assert!(ended);
    assert_eq!(ctx.duration_ms, 42);
    let result = json(&lines[0]);
    assert_eq!(result.get_str("result"), Some("line\nbreak"));
    assert!(lines[0].contains("\"duration_ms\":42,"));
}

#[test]
fn input_lines_are_trimmed_and_sorted() {
    assert!(matches!(repl_step(&ReplEvent::Line(" \t".to_string()), false), ReplAction::Wait));
    match repl_step(&ReplEvent::Line("  /help me ".to_string()), false) {
        ReplAction::Slash(input) => assert_eq!(input, "/help me"),
        other => panic!("unexpected action {other:?}"),
    }
    match repl_step(&ReplEvent::Line(" fix / it\n".to_string()), false) {
        ReplAction::Prompt(prompt) => assert_eq!(prompt, "fix / it"),
        other => panic!("unexpected action {other:?}"),
    }
    assert!(matches!(repl_step(&ReplEvent::Interrupted, false), ReplAction::Wait));
    assert!(matches!(repl_step(&ReplEvent::Eof, false), ReplAction::Quit));
    match repl_step(&ReplEvent::Failed("gone".to_string()), true) {
        ReplAction::Report(line) => assert_eq!(line, "\x1b[31minput error: gone\x1b[0m"),
        other => panic!("unexpected action {other:?}"),
    }
    assert_eq!(input_prompt(false), "❯ ");
}

#[test]
fn commands_are_read_from_their_words() {
    assert!(matches!(parse_slash("/exit"), SlashCommand::Exit));
    assert!(matches!(parse_slash("/quit now"), SlashCommand::Exit));
    assert!(matches!(parse_slash("/q"), SlashCommand::Exit));
    assert!(matches!(parse_slash("/h"), SlashCommand::Help));
    assert!(matches!(parse_slash("/?"), SlashCommand::Help));
    assert!(matches!(parse_slash("/ctx"), SlashCommand::Context));
    assert!(matches!(parse_slash("/"), SlashCommand::Nothing));
    assert!(matches!(parse_slash("/ \u{a0} clear"), SlashCommand::Clear));
    match parse_slash("/model  big   opus") {
        SlashCommand::Model(pattern) => assert_eq!(pattern, "big opus"),
        other => panic!("unexpected command {other:?}"),
    }
    match parse_slash("/thinking low high") {
        SlashCommand::Thinking(level) => assert_eq!(level, "low"),
        other => panic!("unexpected command {other:?}"),
    }
    match parse_slash("/Exit") {
        SlashCommand::Unknown(name) => assert_eq!(name, "Exit"),
        other => panic!("unexpected command {other:?}"),
    }
}

#[test]
fn commands_print_and_act() {
    assert!(matches!(slash("/exit").1, SlashAction::Exit));
    let (lines, action) = slash("/help");
    assert!(matches!(action, SlashAction::Stay));
    assert_eq!(lines.len(), 11);
    assert_eq!(lines[0], "Slash commands:");
    assert_eq!(lines[1], "  /help   show this help");
    assert_eq!(lines[5], "  /thinking <level>   off|minimal|low|medium|high|xhigh");
    assert_eq!(lines[10], "  /system   show the system prompt");
    let (lines, action) = slash("/clear");
    assert!(matches!(action, SlashAction::ClearMessages));
    assert_eq!(lines, vec!["Conversation cleared."]);
    assert_eq!(slash("/model").0, vec!["current model: sonnet"]);
    let (lines, action) = slash("/model opus");
    assert!(lines.is_empty());
    assert!(matches!(action, SlashAction::SwitchModel(pattern) if pattern == "opus"));
    let (lines, action) = slash("/thinking xhigh");
    assert!(lines.is_empty());
    assert!(matches!(action, SlashAction::SetThinking(name) if name == "xhigh"));
    let (lines, action) = slash("/thinking");
    assert!(lines.is_empty());
    assert!(matches!(action, SlashAction::SetThinking(name) if name.is_empty()));
    let (lines, action) = slash("/compact");
    assert!(lines.is_empty());
    assert!(matches!(action, SlashAction::Compact));
    assert_eq!(slash("/tools").0, vec!["tools read, bash"]);
    assert_eq!(slash("/context").0, vec!["context ~1200 tokens / 200000 (1%)"]);
    assert_eq!(
        slash("/cost").0,
        vec!["usage in=10 out=20 cache_read=30 cache_write=40 cost=$0.001500"]
    );
    assert_eq!(slash("/system").0, vec!["You help."]);
    assert!(slash("/").0.is_empty());
    assert_eq!(slash("/nope x").0, vec!["Unknown command: /nope (try /help)"]);
}

#[test]
fn commands_are_colored() {
    let (lines, _) = handle_slash(&SlashCommand::Tools, &view(), true);
    assert_eq!(lines, vec!["\x1b[2mtools\x1b[0m read, bash"]);
    let (lines, _) = handle_slash(&SlashCommand::Help, &view(), true);
    assert_eq!(lines[0], "\x1b[34mSlash commands:\x1b[0m");
    assert_eq!(lines[1], "  \x1b[33m/help\x1b[0m   \x1b[2mshow this help\x1b[0m");
}

#[test]
fn long_system_prompts_are_previewed() {
    let mut v = view();
    v.system_prompt = "é".repeat(600);
    let (lines, _) = handle_slash(&SlashCommand::System, &v, false);
    assert_eq!(lines, vec!["é".repeat(600)]);
    v.system_prompt.push('x');
    let (lines, _) = handle_slash(&SlashCommand::System, &v, false);
    assert_eq!(lines, vec!["é".repeat(600), "…(truncated)".to_string()]);
}

#[test]
fn follow_ups_are_written() {
    let available = vec!["sonnet".to_string(), "opus".to_string()];
    assert_eq!(
        model_answer("sonnet", &Some("opus".to_string()), &available, false),
        ("model sonnet → opus".to_string(), true)
    );
    assert_eq!(
        model_answer("sonnet", &None, &available, false),
        ("Unknown model. Available: sonnet, opus".to_string(), false)
    );
    assert_eq!(
        model_answer("a", &Some("b".to_string()), &available, true).0,
        "\x1b[2mmodel\x1b[0m a → \x1b[32mb\x1b[0m"
    );
    assert_eq!(
        thinking_answer(&Some("XHigh".to_string()), false),
        ("set thinking=XHigh".to_string(), true)
    );
    assert_eq!(
        thinking_answer(&None, true),
        (
            "\x1b[31mUsage: /thinking off|minimal|low|medium|high|xhigh\x1b[0m".to_string(),
            false
        )
    );
    assert_eq!(compacted_line(3, false), "Compacted: dropped 3 messages.");
    assert_eq!(
        turn_status_line(&view().total_usage, "0.0015", 7, false),
        "  ↳ 20 out, 10 in, $0.0015, ctx 7%"
    );
}

#[test]
fn the_banner_names_model_and_tools() {
    let lines = banner("sonnet", 4, "/work", &view().tool_names, false);
    assert_eq!(
        lines,
        vec![
            "pixie-pi v0.1.0  —  model sonnet  —  (4%)",
            "cwd /work",
            "tools read, bash",
            "  /help for commands  /model to switch  /compact to trim  /exit to quit",
            "",
        ]
    );
}
