use pixie_cli::json::Json;
use pixie_cli::render::{
    blue, bold, colors_enabled, dim, green, magenta, red, tool_call_summary, yellow, Chunk,
    EventRenderer,
};
use pixie_cli::types::{
    AgentEvent, AssistantMessage, AssistantMessageEvent, Message, UserMessage,
};

fn summary(name: &str, args: &str) -> String {
    tool_call_summary(name, &Json::parse(args).unwrap())
}

fn shown(chunks: Vec<Chunk>) -> Vec<String> {
    chunks
        .into_iter()
        .map(|chunk| match chunk {
            Chunk::Stdout(s) => format!("out:{s}"),
            Chunk::Stderr(s) => format!("err:{s}"),
        })
        .collect()
}

fn assistant() -> Message {
    Message::Assistant(AssistantMessage::empty())
}

#[test]
fn colors_need_a_terminal_and_no_veto() {
    assert!(colors_enabled(false, true));
    assert!(!colors_enabled(true, true));
    assert!(!colors_enabled(false, false));
}

#[test]
fn every_style_has_its_code() {
    assert_eq!(dim("x", true), "\x1b[2mx\x1b[0m");
    assert_eq!(bold("x", true), "\x1b[1mx\x1b[0m");
    assert_eq!(green("x", true), "\x1b[32mx\x1b[0m");
    assert_eq!(red("x", true), "\x1b[31mx\x1b[0m");
    assert_eq!(yellow("x", true), "\x1b[33mx\x1b[0m");
    assert_eq!(blue("x", true), "\x1b[34mx\x1b[0m");
    assert_eq!(magenta("x", true), "\x1b[35mx\x1b[0m");
    assert_eq!(blue("x", false), "x");
}

#[test]
fn calls_are_summed_up_by_their_arguments() {
    assert_eq!(summary("read", "{\"path\":\"/a\",\"file_path\":\"/b\"}"), " /a");
    assert_eq!(summary("write", "{\"path\":\"\",\"file_path\":\"/b\"}"), " /b");
    assert_eq!(summary("read", "{}"), "");
    assert_eq!(summary("edit", "{\"path\":\"/a\"}"), " /a (1 edit)");
    assert_eq!(summary("edit", "{\"path\":\"/a\",\"edits\":[1,2]}"), " /a (2 edits)");
    assert_eq!(summary("edit", "{\"path\":\"/a\",\"edits\":[]}"), " /a (0 edits)");
    assert_eq!(summary("bash", "{\"command\":\"ls -l\"}"), " ls -l");
    assert_eq!(summary("bash", "{\"command\":7}"), "");
    assert_eq!(summary("grep", "{\"pattern\":\"fn\"}"), " /fn/");
    assert_eq!(summary("grep", "{\"pattern\":\"fn\",\"path\":\"src\"}"), " /fn/ in src");
    assert_eq!(summary("find", "{\"pattern\":\"*.rs\"}"), " *.rs");
    assert_eq!(summary("find", "{\"pattern\":\"*.rs\",\"path\":\"src\"}"), " *.rs in src");
    assert_eq!(summary("find", "{}"), "");
    assert_eq!(summary("ls", "{}"), " .");
    assert_eq!(summary("ls", "{\"path\":\"src\"}"), " src");
    assert_eq!(summary("skill", "{\"n\":1,\"name\":\"deploy\",\"a\":\"x\"}"), " deploy");
    assert_eq!(summary("skill", "[\"deploy\"]"), "");
}

#[test]
fn summaries_stay_on_one_line() {
    assert_eq!(summary("bash", "{\"command\":\"a\\nb\"}"), " a b");
    assert_eq!(summary("bash", "{\"command\":\"a\\r\\n  b\\n\"}"), " a    b ");
    assert_eq!(summary("read", "{\"path\":\"/a\\nb\"}"), " /a b");
    assert_eq!(summary("grep", "{\"pattern\":\"x\\ny\",\"path\":\"p\\nq\"}"), " /x y/ in p q");
    assert_eq!(summary("skill", "{\"name\":\"\\n\"}"), "  ");
}

#[test]
fn open_lines_are_closed_once() {
    let mut r = EventRenderer::new(false);
    assert!(shown(r.handle(&AgentEvent::MessageStart(assistant()), false).0).is_empty());
    let delta = AgentEvent::MessageUpdate {
        event: AssistantMessageEvent::TextDelta { delta: "Hi".to_string() },
    };
    assert_eq!(shown(r.handle(&delta, true).0), vec!["out:Hi"]);
    let call = AgentEvent::ToolExecutionStart {
        tool_name: "bash".to_string(),
        args: Json::parse("{\"command\":\"ls\"}").unwrap(),
    };
    assert_eq!(shown(r.handle(&call, false).0), vec!["out:\n", "err:⏺ bash  ls\n"]);
    assert!(shown(r.handle(&AgentEvent::MessageEnd(assistant()), false).0).is_empty());
}

#[test]
fn message_ends_close_the_line() {
    let mut r = EventRenderer::new(false);
    let user = Message::User(UserMessage::text("x".to_string()));
    r.handle(&AgentEvent::MessageStart(user.clone()), false);
    assert!(!r.text_open);
    r.handle(&AgentEvent::MessageStart(assistant()), false);
    assert!(shown(r.handle(&AgentEvent::MessageEnd(user), false).0).is_empty());
    assert_eq!(shown(r.handle(&AgentEvent::MessageEnd(assistant()), false).0), vec!["out:\n"]);
    assert!(!r.text_open);
}

#[test]
fn thinking_is_shown_on_request() {
    let delta = AgentEvent::MessageUpdate {
        event: AssistantMessageEvent::ThinkingDelta { delta: "hm".to_string() },
    };
    assert!(shown(EventRenderer::new(false).handle(&delta, true).0).is_empty());
    assert_eq!(
        shown(EventRenderer::new(true).handle(&delta, true).0),
        vec!["err:\x1b[2mhm\x1b[0m"]
    );
    let other = AgentEvent::MessageUpdate { event: AssistantMessageEvent::Other };
    assert!(shown(EventRenderer::new(true).handle(&other, true).0).is_empty());
}

#[test]
fn failures_are_shown() {
    let mut r = EventRenderer::new(false);
    r.handle(&AgentEvent::MessageStart(assistant()), false);
    let mut message = AssistantMessage::empty();
    let quiet = AgentEvent::TurnEnd { message: message.clone() };
    assert!(shown(r.handle(&quiet, false).0).is_empty());
    message.error_message = Some("overloaded".to_string());
    let failed = AgentEvent::TurnEnd { message };
    assert_eq!(shown(r.handle(&failed, false).0), vec!["out:\n", "err:error: overloaded\n"]);
    assert_eq!(
        shown(r.handle(&AgentEvent::Error("boom".to_string()), true).0),
        vec!["err:\x1b[31merror: boom\x1b[0m\n"]
    );
    assert_eq!(
        shown(r.handle(&AgentEvent::ToolExecutionEnd { is_error: true }, false).0),
        vec!["err:  ⎿  (error)\n"]
    );
    assert!(shown(r.handle(&AgentEvent::ToolExecutionEnd { is_error: false }, false).0).is_empty());
    let (chunks, ended) = r.handle(&AgentEvent::AgentEnd { messages: Vec::new() }, false);
    assert!(shown(chunks).is_empty());
    assert!(ended);
}
