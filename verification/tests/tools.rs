use pixie_cli::json::Json;
use pixie_cli::tools::bash::{
    finish, format_output, fresh_log_name, needs_saving, output_text, shell_program, BashError,
    BashInput, BashTool, Ended, Launch, ToolResult, Truncation,
};
use pixie_cli::types::ToolResultContent;

fn tool() -> BashTool {
    BashTool { cwd: "/work".to_string() }
}

fn input(command: Option<&str>, timeout: Option<u64>) -> BashInput {
    BashInput { command: command.map(|c| c.to_string()), timeout }
}

fn launch(timeout: Option<u64>) -> Launch {
    tool().prepare(input(Some("sleep 30"), timeout), true, true, &None).unwrap()
}

fn whole(content: &str) -> Truncation {
    Truncation {
        content: content.to_string(),
        truncated: false,
        truncated_by: None,
        total_lines: 1,
        output_lines: 1,
    }
}

fn tail(by: &str) -> Truncation {
    Truncation {
        content: "last".to_string(),
        truncated: true,
        truncated_by: Some(by.to_string()),
        total_lines: 2500,
        output_lines: 2000,
    }
}

fn text_of(result: &ToolResult) -> &str {
    match &result.content[0] {
        ToolResultContent::Text { text } => text,
        _ => panic!("expected text"),
    }
}

fn ended(timeout: Option<u64>, how: Ended, content: &str) -> Result<ToolResult, BashError> {
    finish(&launch(timeout), &how, content, &whole(content), "50.0KB", "/tmp/x.log")
}

#[test]
fn the_tool_describes_itself() {
    assert_eq!(tool().name(), "bash");
    assert!(tool().description().starts_with("Execute a bash command"));
    assert!(tool().description().ends_with("Optionally provide a timeout in seconds."));
    assert_eq!(
        tool().input_schema().to_text(),
        "{\"type\":\"object\",\"properties\":{\"command\":{\"type\":\"string\",\
         \"description\":\"Bash command to execute\"},\"timeout\":{\"type\":\"number\",\
         \"description\":\"Timeout in seconds (optional, no default timeout)\"}},\
         \"required\":[\"command\"]}"
    );
}

#[test]
fn shells_depend_on_the_system() {
    let (program, args) = shell_program(true, &Some("/bin/zsh".to_string()));
    assert_eq!((program.as_str(), args), ("/bin/zsh", vec!["-c".to_string()]));
    let (program, _) = shell_program(true, &None);
    assert_eq!(program, "/bin/sh");
    let (program, args) = shell_program(false, &Some("/bin/zsh".to_string()));
    assert_eq!((program.as_str(), args), ("cmd.exe", vec!["/C".to_string()]));
}

#[test]
fn calls_are_checked_before_launch() {
    let error = tool().prepare(input(None, None), false, true, &None).unwrap_err();
    assert_eq!(error.message(), "bash requires a 'command' parameter");
    let error = tool().prepare(input(Some("ls"), None), false, true, &None).unwrap_err();
    assert_eq!(
        error.message(),
        "Working directory does not exist: /work\nCannot execute bash commands."
    );
    let launch = tool().prepare(input(Some("ls"), Some(7)), true, true, &None).unwrap();
    assert_eq!(launch.program, "/bin/sh");
    assert_eq!(launch.args, vec!["-c".to_string(), "ls".to_string()]);
    assert_eq!(launch.cwd, "/work");
    assert_eq!(launch.timeout, Some(7));
    let launch = tool().prepare(input(Some("ls"), Some(0)), true, true, &None).unwrap();
    assert_eq!(launch.timeout, None);
}

#[test]
fn output_is_decoded() {
    assert_eq!(output_text("pi-bash-ok\né".as_bytes()), "pi-bash-ok\né");
    assert_eq!(output_text(b"a\xffb"), "a\u{fffd}b");
    assert_eq!(output_text(b""), "");
}

#[test]
fn blank_output_is_named() {
    let (text, details) = format_output(" \n", &tail("lines"), "50.0KB", "/tmp/x.log");
    assert_eq!(text, "(no output)");
    assert!(matches!(details, Json::Null));
    assert!(!needs_saving(" \n", &tail("lines")));
}

#[test]
fn whole_output_is_reported_as_it_is() {
    let (text, details) = format_output(" x\n", &whole(" x\n"), "50.0KB", "/tmp/x.log");
    assert_eq!(text, " x\n");
    assert!(matches!(details, Json::Null));
    assert!(!needs_saving("x", &whole("x")));
}

#[test]
fn cut_output_names_the_full_file() {
    let (text, details) = format_output("all", &tail("lines"), "50.0KB", "/tmp/x.log");
    assert_eq!(text, "last\n\n[Showing lines 501-2500 of 2500. Full output: /tmp/x.log]");
    assert_eq!(details.to_text(), "{\"truncated\":true,\"fullOutputPath\":\"/tmp/x.log\"}");
    assert!(needs_saving("all", &tail("lines")));
    let (text, _) = format_output("all", &tail("bytes"), "50.0KB", "/tmp/x.log");
    assert_eq!(
        text,
        "last\n\n[Showing lines 501-2500 of 2500 (50.0KB limit). Full output: /tmp/x.log]"
    );
    let mut odd = tail("lines");
    odd.truncated_by = None;
    odd.total_lines = 3;
    odd.output_lines = 5;
    let (text, _) = format_output("all", &odd, "50.0KB", "/tmp/x.log");
    assert_eq!(text, "last\n\n[Showing lines 1-3 of 3 (50.0KB limit). Full output: /tmp/x.log]");
}

#[test]
fn log_names_are_random() {
    let name = fresh_log_name();
    assert!(name.starts_with("pi-bash-"));
    assert!(name.ends_with(".log"));
    assert_eq!(name.len(), 44);
    let id = &name.as_bytes()[8..40];
    assert!(id.iter().all(|b| b.is_ascii_digit() || (b'a'..=b'f').contains(b)));
    assert_eq!(id[12], b'4');
    assert!(matches!(id[16], b'8' | b'9' | b'a' | b'b'));
    assert_ne!(name, fresh_log_name());
}

#[test]
fn successes_report_their_output() {
    let result = ended(None, Ended::Exited(Some(0)), "pi-bash-ok\n").unwrap();
    assert_eq!(text_of(&result), "pi-bash-ok\n");
    assert_eq!(result.content.len(), 1);
    assert!(!result.terminate);
    let result = ended(None, Ended::Exited(None), "").unwrap();
    assert_eq!(text_of(&result), "(no output)");
}

#[test]
fn failures_surface_their_output() {
    let error = ended(None, Ended::Exited(Some(127)), "not found").unwrap_err();
    assert_eq!(error.message(), "not found\n\nCommand exited with code 127");
    let error = ended(None, Ended::Exited(Some(i32::MIN)), "x").unwrap_err();
    assert_eq!(error.message(), "x\n\nCommand exited with code -2147483648");
}

#[test]
fn timeouts_surface_output_produced_before_the_kill() {
    let error = ended(Some(1), Ended::TimedOut, "before-timeout-marker\n").unwrap_err();
    assert_eq!(
        error.message(),
        "before-timeout-marker\n\n\nCommand timed out after 1 seconds"
    );
}

#[test]
fn cancelled_calls_are_aborted() {
    let error = ended(None, Ended::Cancelled, "lost").unwrap_err();
    assert_eq!(error.message(), "Command aborted");
}
