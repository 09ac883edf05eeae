use pixie_cli::compat::claude::{can_map, map_stop_reason};
use pixie_cli::compat::{map_events, system_init, to_ndjson, ClaudeLine, MapCtx};
use pixie_cli::json::Json;
use pixie_cli::types::{
    AgentEvent, AssistantMessage, ContentBlock, Cost, Message, StopReason, ToolResultContent,
    ToolResultMessage, Usage, UserMessage,
};
use serde_json::Value;

fn ctx() -> MapCtx {
    MapCtx::new("sess-1", "sonnet-4-6", "/tmp/proj", "bypassPermissions")
}

fn assistant_text(text: &str, usage: Usage) -> AssistantMessage {
    let mut a = AssistantMessage::empty();
    a.content.push(ContentBlock::Text { text: text.to_string() });
    a.text = text.to_string();
    a.usage = usage;
    a
}

/// The price of the only turn so far.
fn price(dollars: f64) -> Cost {
    let n = serde_json::Number::from_f64(dollars);
    Cost { total: n.clone(), so_far: n }
}

fn path_argument() -> Json {
    Json::Object(vec![("path".to_string(), Json::text("/a"))])
}

fn parsed(line: &ClaudeLine) -> Value {
    serde_json::from_str(&to_ndjson(line)).unwrap()
}

fn end() -> AgentEvent {
    AgentEvent::AgentEnd { messages: Vec::new() }
}

#[test]
fn system_init_has_init_subtype_and_model() {
    let line = system_init(&ctx(), vec!["read".into(), "bash".into()]);
    let v: Value = serde_json::from_str(&to_ndjson(&line)).unwrap();
    assert_eq!(v["type"], "system");
    assert_eq!(v["subtype"], "init");
    assert_eq!(v["model"], "sonnet-4-6");
    assert_eq!(v["session_id"], "sess-1");
    assert_eq!(v["permissionMode"], "bypassPermissions");
    assert_eq!(v["cwd"], "/tmp/proj");
    assert_eq!(v["tools"][0], "read");
}

#[test]
fn assistant_message_end_emits_assistant_line_with_text_block() {
    let mut c = ctx();
    let a = assistant_text("Hello", Usage::default());
    let lines = map_events(&AgentEvent::MessageEnd(Message::Assistant(a)), &mut c);
    assert_eq!(lines.len(), 1);
    let v: Value = serde_json::from_str(&to_ndjson(&lines[0])).unwrap();
    assert_eq!(v["type"], "assistant");
    assert_eq!(v["session_id"], "sess-1");
    assert_eq!(v["message"]["role"], "assistant");
    assert_eq!(v["message"]["content"][0]["type"], "text");
    assert_eq!(v["message"]["content"][0]["text"], "Hello");
}

#[test]
fn tool_call_block_is_tool_use_with_input_not_arguments() {
    let mut c = ctx();
    let mut a = AssistantMessage::empty();
    a.content.push(ContentBlock::ToolCall {
        id: "tu_1".into(),
        name: "read".into(),
        arguments: path_argument(),
    });
    let lines = map_events(&AgentEvent::MessageEnd(Message::Assistant(a)), &mut c);
    let block = serde_json::from_str::<Value>(&to_ndjson(&lines[0])).unwrap()["message"]["content"]
        [0]
    .clone();
    assert_eq!(block["type"], "tool_use");
    assert_eq!(block["id"], "tu_1");
    assert_eq!(block["name"], "read");
    assert_eq!(block["input"]["path"], "/a");
    assert!(block.get("arguments").is_none());
}

#[test]
fn tool_result_message_end_emits_user_line_with_tool_result_block() {
    let mut c = ctx();
    let t = ToolResultMessage {
        tool_call_id: "tu_1".into(),
        tool_name: "read".into(),
        content: vec![ToolResultContent::text("file body")],
        is_error: false,
        timestamp: 0,
    };
    let lines = map_events(&AgentEvent::MessageEnd(Message::ToolResult(t)), &mut c);
    assert_eq!(lines.len(), 1);
    let v: Value = serde_json::from_str(&to_ndjson(&lines[0])).unwrap();
    assert_eq!(v["type"], "user");
    assert_eq!(v["message"]["role"], "user");
    assert_eq!(v["message"]["content"][0]["type"], "tool_result");
    assert_eq!(v["message"]["content"][0]["tool_use_id"], "tu_1");
    assert_eq!(v["message"]["content"][0]["content"], "file body");
    assert_eq!(v["message"]["content"][0]["is_error"], false);
}

#[test]
fn user_prompt_is_not_echoed_as_a_user_line() {
    let mut c = ctx();
    let prompt = Message::User(UserMessage::text("ignored prompt".to_string()));
    let lines = map_events(&AgentEvent::MessageEnd(prompt), &mut c);
    assert!(lines.is_empty(), "injected user prompt must not be echoed");
}

#[test]
fn usage_event_accumulates_into_context_and_emits_no_line() {
    let mut c = ctx();
    let a = assistant_text("Hi", Usage::default());
    map_events(&AgentEvent::MessageEnd(Message::Assistant(a)), &mut c);
    let lines = map_events(
        &AgentEvent::Usage(Usage {
            input: 100,
            output: 40,
            cache_read: 5,
            cache_write: 2,
            ..Usage::default()
        }),
        &mut c,
    );
    assert!(lines.is_empty());
    assert_eq!(c.usage.input, 100);
}

#[test]
fn agent_end_emits_exactly_one_result_line_with_totals() {
    let mut c = ctx();
    let a = assistant_text("final answer", Usage::default());
    map_events(&AgentEvent::MessageEnd(Message::Assistant(a)), &mut c);
    map_events(
        &AgentEvent::Usage(Usage {
            input: 100,
            output: 40,
            cache_read: 5,
            cache_write: 2,
            cost: price(0.0123),
        }),
        &mut c,
    );
    c.set_duration_ms(1500);

    let lines = map_events(&AgentEvent::AgentEnd { messages: Vec::new() }, &mut c);
    assert_eq!(lines.len(), 1, "AgentEnd ⇒ exactly one result line");
    let v: Value = serde_json::from_str(&to_ndjson(&lines[0])).unwrap();
    assert_eq!(v["type"], "result");
    assert_eq!(v["subtype"], "success");
    assert_eq!(v["is_error"], false);
    assert_eq!(v["result"], "final answer");
    assert_eq!(v["num_turns"], 1);
    assert_eq!(v["duration_ms"], 1500);
    assert_eq!(v["total_cost_usd"], 0.0123);
    assert_eq!(v["usage"]["input_tokens"], 100);
    assert_eq!(v["usage"]["output_tokens"], 40);
    assert_eq!(v["usage"]["cache_creation_input_tokens"], 2);
    assert_eq!(v["usage"]["cache_read_input_tokens"], 5);
    assert_eq!(v["modelUsage"]["sonnet-4-6"]["inputTokens"], 100);
    assert_eq!(v["modelUsage"]["sonnet-4-6"]["outputTokens"], 40);
}

#[test]
fn full_tool_use_turn_sequences_assistant_user_result() {
    let mut c = ctx();

    let mut a1 = AssistantMessage::empty();
    a1.stop_reason = StopReason::ToolUse;
    a1.content.push(ContentBlock::ToolCall {
        id: "tu_1".into(),
        name: "read".into(),
        arguments: path_argument(),
    });
    let l1 = map_events(&AgentEvent::MessageEnd(Message::Assistant(a1)), &mut c);

    let t = ToolResultMessage {
        tool_call_id: "tu_1".into(),
        tool_name: "read".into(),
        content: vec![ToolResultContent::text("ok")],
        is_error: false,
        timestamp: 0,
    };
    let l2 = map_events(&AgentEvent::MessageEnd(Message::ToolResult(t)), &mut c);

    let mut a2 = AssistantMessage::empty();
    a2.content.push(ContentBlock::Text { text: "done".into() });
    let l3 = map_events(&AgentEvent::MessageEnd(Message::Assistant(a2)), &mut c);

    let l4 = map_events(&AgentEvent::AgentEnd { messages: Vec::new() }, &mut c);

    let line_of = |ls: Vec<ClaudeLine>| {
        serde_json::from_str::<Value>(&to_ndjson(&ls[0])).unwrap()["type"].clone()
    };
    assert_eq!(line_of(l1), "assistant");
    assert_eq!(line_of(l2), "user");
    assert_eq!(line_of(l3), "assistant");
    assert_eq!(line_of(l4), "result");
    assert_eq!(c.num_turns, 2, "two assistant turns in a tool-use run");
}

#[test]
fn fatal_error_surfaces_in_result_line_as_error() {
    let mut c = ctx();
    let a = assistant_text("partial", Usage::default());
    map_events(&AgentEvent::MessageEnd(Message::Assistant(a)), &mut c);
    map_events(&AgentEvent::Error("boom".into()), &mut c);
    let lines = map_events(&AgentEvent::AgentEnd { messages: Vec::new() }, &mut c);
    let v: Value = serde_json::from_str(&to_ndjson(&lines[0])).unwrap();
    assert_eq!(v["type"], "result");
    assert_eq!(v["is_error"], true);
    assert_eq!(v["subtype"], "error");
    assert_eq!(v["result"], "boom", "error message becomes the result text");
}

#[test]
fn to_ndjson_round_trips_through_serde() {
    let line = system_init(&ctx(), Vec::new());
    let s = to_ndjson(&line);
    assert!(!s.contains('\n'), "a line has no embedded newline");
    let v: Value = serde_json::from_str(&s).unwrap();
    assert_eq!(v["type"], "system");
}

#[test]
fn the_compat_mapper_is_reusable_from_sdk_consumers() {
    let mut ctx = MapCtx::new("sess-smoke", "sonnet-4-6", "/tmp/proj", "bypassPermissions");

    let init = system_init(&ctx, vec!["read".into(), "bash".into()]);
    let init_v: serde_json::Value = serde_json::from_str(&to_ndjson(&init)).unwrap();
    assert_eq!(init_v["type"], "system");
    assert_eq!(init_v["subtype"], "init");
    assert_eq!(init_v["session_id"], "sess-smoke");

    let lines = map_events(&AgentEvent::AgentEnd { messages: vec![] }, &mut ctx);
    assert_eq!(lines.len(), 1);
    let result_v: serde_json::Value = serde_json::from_str(&to_ndjson(&lines[0])).unwrap();
    assert_eq!(result_v["type"], "result");
    assert_eq!(result_v["session_id"], "sess-smoke");
}

#[test]
fn system_line_is_written_field_by_field() {
    let line = system_init(&ctx(), vec!["read".into(), "say \"hi\"\n".into()]);
    assert_eq!(
        to_ndjson(&line),
        "{\"type\":\"system\",\"subtype\":\"init\",\"cwd\":\"/tmp/proj\",\
         \"session_id\":\"sess-1\",\"model\":\"sonnet-4-6\",\
         \"permissionMode\":\"bypassPermissions\",\"tools\":[\"read\",\"say \\\"hi\\\"\\n\"],\
         \"mcpServers\":{},\"version\":\"0.1.0\"}"
    );
}

#[test]
fn absent_fields_are_left_out() {
    let line = ClaudeLine::System {
        subtype: "init".into(),
        cwd: None,
        session_id: "s".into(),
        model: "m".into(),
        permission_mode: None,
        tools: Vec::new(),
        mcp_servers: None,
        version: "1".into(),
    };
    assert_eq!(
        to_ndjson(&line),
        "{\"type\":\"system\",\"subtype\":\"init\",\"session_id\":\"s\",\"model\":\"m\",\
         \"tools\":[],\"version\":\"1\"}"
    );
}

#[test]
fn result_line_without_turns_has_no_stop_reason() {
    let mut c = ctx();
    let lines = map_events(&end(), &mut c);
    assert_eq!(
        to_ndjson(&lines[0]),
        "{\"type\":\"result\",\"subtype\":\"success\",\"is_error\":false,\"result\":\"\",\
         \"session_id\":\"sess-1\",\"total_cost_usd\":0.0,\"duration_ms\":0,\"num_turns\":0,\
         \"model\":\"sonnet-4-6\",\"usage\":{\"input_tokens\":0,\"output_tokens\":0,\
         \"cache_creation_input_tokens\":0,\"cache_read_input_tokens\":0},\
         \"modelUsage\":{\"sonnet-4-6\":{\"inputTokens\":0,\"outputTokens\":0,\
         \"cacheReadInputTokens\":0,\"cacheCreationInputTokens\":0}}}"
    );
}

#[test]
fn assistant_messages_name_their_own_model_and_id() {
    let mut c = ctx();
    let mut a = AssistantMessage::empty();
    a.response_id = Some("msg_7".into());
    a.model = "opus-4-6".into();
    a.stop_reason = StopReason::Length;
    a.content.push(ContentBlock::Thinking {
        thinking: "hm".into(),
        signature: Some("sig".into()),
        redacted: false,
    });
    a.usage = Usage { input: 7, ..Usage::default() };
    let v = parsed(&map_events(&AgentEvent::MessageEnd(Message::Assistant(a)), &mut c)[0]);
    assert_eq!(v["message"]["id"], "msg_7");
    assert_eq!(v["message"]["model"], "opus-4-6");
    assert_eq!(v["message"]["stop_reason"], "max_tokens");
    assert!(v["message"]["stop_sequence"].is_null());
    assert_eq!(v["message"]["usage"]["input_tokens"], 7);
    assert_eq!(v["message"]["content"][0]["type"], "thinking");
    assert_eq!(v["message"]["content"][0]["thinking"], "hm");
    assert!(v["message"]["content"][0].get("signature").is_none());

    let plain = AssistantMessage::empty();
    let v = parsed(&map_events(&AgentEvent::MessageEnd(Message::Assistant(plain)), &mut c)[0]);
    assert_eq!(v["message"]["id"], "msg_0");
    assert_eq!(v["message"]["model"], "sonnet-4-6");
    assert_eq!(v["message"]["stop_reason"], "end_turn");
}

#[test]
fn failures_have_no_stop_reason_of_their_own() {
    assert_eq!(map_stop_reason(StopReason::Stop), Some("end_turn"));
    assert_eq!(map_stop_reason(StopReason::Length), Some("max_tokens"));
    assert_eq!(map_stop_reason(StopReason::ToolUse), Some("tool_use"));
    assert_eq!(map_stop_reason(StopReason::Error), Some("end_turn"));
    assert_eq!(map_stop_reason(StopReason::Aborted), Some("end_turn"));
}

#[test]
fn tool_results_join_their_text_parts() {
    let mut c = ctx();
    let t = ToolResultMessage {
        tool_call_id: "tu_2".into(),
        tool_name: "read".into(),
        content: vec![
            ToolResultContent::text("a"),
            ToolResultContent::Image { data: "AA==".into(), mime_type: "image/png".into() },
            ToolResultContent::text("b"),
        ],
        is_error: true,
        timestamp: 1,
    };
    let v = parsed(&map_events(&AgentEvent::MessageEnd(Message::ToolResult(t)), &mut c)[0]);
    assert_eq!(v["message"]["content"][0]["content"], "a\nb");
    assert_eq!(v["message"]["content"][0]["is_error"], true);
}

#[test]
fn the_final_text_is_recovered_from_the_transcript() {
    let mut c = ctx();
    let messages = vec![
        Message::Assistant(assistant_text("older", Usage::default())),
        Message::Assistant(assistant_text("newer", Usage::default())),
        Message::Assistant(AssistantMessage::empty()),
        Message::User(UserMessage::text("prompt".to_string())),
    ];
    let lines = map_events(&AgentEvent::AgentEnd { messages }, &mut c);
    assert_eq!(parsed(&lines[0])["result"], "newer");

    let mut c = ctx();
    let a = assistant_text("spoken", Usage::default());
    map_events(&AgentEvent::MessageEnd(Message::Assistant(a)), &mut c);
    map_events(&AgentEvent::MessageEnd(Message::Assistant(AssistantMessage::empty())), &mut c);
    let messages = vec![Message::Assistant(assistant_text("other", Usage::default()))];
    let lines = map_events(&AgentEvent::AgentEnd { messages }, &mut c);
    assert_eq!(parsed(&lines[0])["result"], "spoken");
}

#[test]
fn every_turn_ends_with_one_result_and_totals_go_on() {
    let mut c = ctx();
    for turn in 1..=3u64 {
        let events = vec![
            AgentEvent::Other,
            AgentEvent::MessageEnd(Message::Assistant(assistant_text("x", Usage::default()))),
            AgentEvent::Usage(Usage { input: 10, output: 1, ..Usage::default() }),
            end(),
        ];
        let mut kinds = Vec::new();
        let mut last = Value::Null;
        for ev in &events {
            for line in map_events(ev, &mut c) {
                last = parsed(&line);
                assert_eq!(last["session_id"], "sess-1");
                kinds.push(last["type"].as_str().unwrap().to_string());
            }
        }
        assert_eq!(kinds, vec!["assistant", "result"]);
        assert_eq!(last["num_turns"], turn);
        assert_eq!(last["usage"]["input_tokens"], 10 * turn);
    }
    assert_eq!(c.cwd, "/tmp/proj");
    assert_eq!(c.permission_mode, "bypassPermissions");
}

#[test]
fn the_last_failure_is_reported() {
    let mut c = ctx();
    let mut a = assistant_text("partial", Usage::default());
    a.error_message = Some("overloaded".into());
    map_events(&AgentEvent::MessageEnd(Message::Assistant(a)), &mut c);
    let lines = map_events(&end(), &mut c);
    assert_eq!(parsed(&lines[0])["result"], "overloaded");
    map_events(&AgentEvent::Error("later".into()), &mut c);
    let lines = map_events(&end(), &mut c);
    assert_eq!(parsed(&lines[0])["result"], "later");
}

#[test]
fn failed_stops_surface_as_errors() {
    for stop_reason in [StopReason::Error, StopReason::Aborted] {
        let mut c = ctx();
        let mut a = assistant_text("partial", Usage::default());
        a.stop_reason = stop_reason;
        let lines = map_events(&AgentEvent::MessageEnd(Message::Assistant(a)), &mut c);
        assert_eq!(parsed(&lines[0])["message"]["stop_reason"], "end_turn");
        let v = parsed(&map_events(&end(), &mut c)[0]);
        assert_eq!(v["is_error"], true);
        assert_eq!(v["subtype"], "error");
        assert_eq!(v["result"], "partial");
        assert_eq!(v["stop_reason"], "end_turn");
    }
    let mut c = ctx();
    let mut a = assistant_text("cut", Usage::default());
    a.stop_reason = StopReason::Length;
    map_events(&AgentEvent::MessageEnd(Message::Assistant(a)), &mut c);
    let v = parsed(&map_events(&end(), &mut c)[0]);
    assert_eq!(v["is_error"], false);
    assert_eq!(v["subtype"], "success");
}

#[test]
fn contexts_and_lines_can_be_copied() {
    let mut c = ctx();
    let copy = c.clone();
    c.set_duration_ms(9);
    assert_eq!(copy.duration_ms, 0);
    assert_eq!(copy.session_id, "sess-1");
    let line = system_init(&c, vec!["read".into()]);
    assert_eq!(to_ndjson(&line.clone()), to_ndjson(&line));
}

#[test]
fn failed_stops_end_with_their_turn() {
    let mut c = ctx();
    let mut a = assistant_text("partial", Usage::default());
    a.stop_reason = StopReason::Aborted;
    map_events(&AgentEvent::MessageEnd(Message::Assistant(a)), &mut c);
    assert_eq!(parsed(&map_events(&end(), &mut c)[0])["is_error"], true);
    let a = assistant_text("clean", Usage::default());
    map_events(&AgentEvent::MessageEnd(Message::Assistant(a)), &mut c);
    let v = parsed(&map_events(&end(), &mut c)[0]);
    assert_eq!(v["is_error"], false);
    assert_eq!(v["subtype"], "success");
    assert_eq!(v["result"], "clean");
}

#[test]
fn prices_are_floats_that_the_caller_sums() {
    let mut c = ctx();
    let usage = |total: f64, so_far: f64| {
        AgentEvent::Usage(Usage {
            cost: Cost {
                total: serde_json::Number::from_f64(total),
                so_far: serde_json::Number::from_f64(so_far),
            },
            ..Usage::default()
        })
    };
    map_events(&usage(0.1, 0.1), &mut c);
    map_events(&usage(0.2, 0.1 + 0.2), &mut c);
    let line = to_ndjson(&map_events(&end(), &mut c)[0]);
    assert!(line.contains("\"total_cost_usd\":0.30000000000000004,"));
    map_events(&usage(1e-12, 1e-12), &mut c);
    let v = parsed(&map_events(&end(), &mut c)[0]);
    assert_eq!(v["total_cost_usd"], 1e-12);
    map_events(&usage(f64::NAN, f64::NAN), &mut c);
    let line = to_ndjson(&map_events(&end(), &mut c)[0]);
    assert!(line.contains("\"total_cost_usd\":null,"));
}

#[test]
fn counts_that_would_overflow_are_told() {
    let mut c = ctx();
    c.usage.input = u64::MAX;
    let one = AgentEvent::Usage(Usage { input: 1, ..Usage::default() });
    assert!(!can_map(&one, &c));
    assert!(can_map(&AgentEvent::Usage(Usage::default()), &c));
    c.num_turns = usize::MAX;
    let ended = AgentEvent::MessageEnd(Message::Assistant(AssistantMessage::empty()));
    assert!(!can_map(&ended, &c));
    assert!(can_map(&end(), &c));
}

#[test]
fn repeated_argument_keys_keep_the_last_value() {
    let mut c = ctx();
    let mut a = AssistantMessage::empty();
    a.content.push(ContentBlock::ToolCall {
        id: "tu".into(),
        name: "read".into(),
        arguments: Json::Object(vec![
            ("path".to_string(), Json::text("/a")),
            ("limit".to_string(), Json::uint(3)),
            ("path".to_string(), Json::text("/b")),
        ]),
    });
    let lines = map_events(&AgentEvent::MessageEnd(Message::Assistant(a)), &mut c);
    assert!(to_ndjson(&lines[0]).contains("\"input\":{\"path\":\"/b\",\"limit\":3}"));
}
