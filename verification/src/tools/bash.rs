//! The `bash` tool: what to launch for a call, and what to answer once the
//! command has ended.

use vstd::prelude::*;

use crate::ids;
use crate::json;
use crate::json::{Json, Tree};
use crate::text;
use crate::types::ToolResultContent;

verus! {

/// The `bash` tool.
#[derive(Debug)]
pub struct BashTool {
    /// Directory in which commands run.
    pub cwd: String,
}

/// The arguments of a call.
#[derive(Debug)]
pub struct BashInput {
    pub command: Option<String>,
    /// Seconds; nothing or 0 for no limit.
    pub timeout: Option<u64>,
}

/// A process to launch.
#[derive(Debug)]
pub struct Launch {
    pub program: String,
    pub args: Vec<String>,
    pub cwd: String,
    /// Seconds after which the process is killed.
    pub timeout: Option<u64>,
}

/// How a process has ended.
#[derive(Debug)]
pub enum Ended {
    /// The call was cancelled, and the process killed.
    Cancelled,
    /// The process was killed after its timeout.
    TimedOut,
    /// The process has exited, with a code unless a signal stopped it.
    Exited(Option<i32>),
}

/// The tail of an output.
#[derive(Debug)]
pub struct Truncation {
    /// What is left of the output.
    pub content: String,
    /// Whether anything was cut off.
    pub truncated: bool,
    /// The limit that was hit: `lines`, or else the size.
    pub truncated_by: Option<String>,
    pub total_lines: usize,
    pub output_lines: usize,
}

/// The answer to a call.
#[derive(Debug)]
pub struct ToolResult {
    pub content: Vec<ToolResultContent>,
    pub details: Json,
    /// Whether the agent stops after this call.
    pub terminate: bool,
}

/// Why a call has failed.
#[derive(Debug)]
pub enum BashError {
    /// The call has no command.
    NoCommand,
    /// The working directory is missing.
    NoDirectory(String),
    /// The call was cancelled.
    Aborted,
    /// The command took too long.
    TimedOut {
        text: String,
        secs: u64,
    },
    /// The command has failed.
    Failed {
        text: String,
        code: i32,
    },
}

/// An integer, written in decimal digits.
pub open spec fn signed_decimal(n: int) -> Seq<char> {
    if n < 0 {
        "-"@ + text::decimal((-n) as nat)
    } else {
        text::decimal(n as nat)
    }
}

fn signed_string(n: i32) -> (r: String)
    ensures
        r@ == signed_decimal(n as int),
{
    if n < 0 {
        let size: i64 = -(n as i64);
        let mut s = "-".to_string();
        s.append(text::decimal_string(size as u64).as_str());
        s
    } else {
        text::decimal_string(n as u64)
    }
}

/// What an error says.
pub open spec fn error_message(e: BashError) -> Seq<char> {
    match e {
        BashError::NoCommand => "bash requires a 'command' parameter"@,
        BashError::NoDirectory(cwd) => "Working directory does not exist: "@ + cwd@
            + "\nCannot execute bash commands."@,
        BashError::Aborted => "Command aborted"@,
        BashError::TimedOut { text, secs } => text@ + "\n\nCommand timed out after "@
            + text::decimal(secs as nat) + " seconds"@,
        BashError::Failed { text, code } => text@ + "\n\nCommand exited with code "@
            + signed_decimal(code as int),
    }
}

impl BashError {
    /// What the error says.
    pub fn message(&self) -> (r: String)
        ensures
            r@ == error_message(*self),
    {
        match self {
            BashError::NoCommand => "bash requires a 'command' parameter".to_string(),
            BashError::NoDirectory(cwd) => {
                let mut s = "Working directory does not exist: ".to_string();
                s.append(cwd.as_str());
                s.append("\nCannot execute bash commands.");
                s
            },
            BashError::Aborted => "Command aborted".to_string(),
            BashError::TimedOut { text, secs } => {
                let mut s = text.clone();
                s.append("\n\nCommand timed out after ");
                s.append(text::decimal_string(*secs).as_str());
                s.append(" seconds");
                s
            },
            BashError::Failed { text, code } => {
                let mut s = text.clone();
                s.append("\n\nCommand exited with code ");
                s.append(signed_string(*code).as_str());
                s
            },
        }
    }
}

// ---------------------------------------------------------------------------
// Launching
// ---------------------------------------------------------------------------

/// The shell that runs commands.
pub open spec fn shell_named(unix: bool, shell: Option<Seq<char>>) -> Seq<char> {
    if unix {
        match shell {
            Some(path) => path,
            None => "/bin/sh"@,
        }
    } else {
        "cmd.exe"@
    }
}

/// The flag that hands a command to the shell.
pub open spec fn shell_flag(unix: bool) -> Seq<char> {
    if unix {
        "-c"@
    } else {
        "/C"@
    }
}

/// The shell that runs commands, and its arguments before the command. `shell`
/// is the value of `SHELL`.
pub fn shell_program(unix: bool, shell: &Option<String>) -> (r: (String, Vec<String>))
    ensures
        r.0@ == shell_named(unix, text::opt_view(*shell)),
        text::views(r.1@) == seq![shell_flag(unix)],
{
    broadcast use text::lemma_views_push;

    let mut args: Vec<String> = Vec::new();
    assert(text::views(args@) =~= Seq::empty());
    if unix {
        let program = match shell {
            Some(path) => path.clone(),
            None => "/bin/sh".to_string(),
        };
        args.push("-c".to_string());
        assert(text::views(args@) =~= seq![shell_flag(unix)]);
        (program, args)
    } else {
        args.push("/C".to_string());
        assert(text::views(args@) =~= seq![shell_flag(unix)]);
        ("cmd.exe".to_string(), args)
    }
}

/// The schema of an argument.
pub open spec fn argument_schema(kind: Seq<char>, about: Seq<char>) -> Tree {
    Tree::Object(seq![("type"@, Tree::Str(kind)), ("description"@, Tree::Str(about))])
}

/// The schema of the arguments.
pub open spec fn schema() -> Tree {
    Tree::Object(
        seq![
            ("type"@, Tree::Str("object"@)),
            (
                "properties"@,
                Tree::Object(
                    seq![
                        ("command"@, argument_schema("string"@, "Bash command to execute"@)),
                        (
                            "timeout"@,
                            argument_schema(
                                "number"@,
                                "Timeout in seconds (optional, no default timeout)"@,
                            ),
                        ),
                    ],
                ),
            ),
            ("required"@, Tree::Array(seq![Tree::Str("command"@)])),
        ],
    )
}

fn argument_json(kind: &str, about: &str) -> (r: Json)
    ensures
        r@ == argument_schema(kind@, about@),
{
    broadcast use json::group_json_view;

    let mut o: Vec<(String, Json)> = Vec::new();
    o.push(("type".to_string(), Json::text(kind)));
    o.push(("description".to_string(), Json::text(about)));
    assert(json::entry_trees(o@) =~= argument_schema(kind@, about@)->Object_0);
    Json::Object(o)
}

/// Whether what is launched for a call, or the error in its place, is right.
pub open spec fn prepared(
    cwd: Seq<char>,
    input: BashInput,
    directory_exists: bool,
    unix: bool,
    shell: Option<Seq<char>>,
    launched: Result<Launch, BashError>,
) -> bool {
    match launched {
        Ok(launch) => {
            &&& input.command is Some
            &&& directory_exists
            &&& launch.program@ == shell_named(unix, shell)
            &&& text::views(launch.args@) == seq![shell_flag(unix), input.command->0@]
            &&& launch.cwd@ == cwd
            &&& launch.timeout == (if input.timeout == Some(0u64) {
                None
            } else {
                input.timeout
            })
        },
        Err(BashError::NoCommand) => input.command is None,
        Err(BashError::NoDirectory(missing)) => {
            &&& input.command is Some
            &&& !directory_exists
            &&& missing@ == cwd
        },
        Err(_) => false,
    }
}

impl BashTool {
    /// Name of the tool.
    pub fn name(&self) -> (r: &'static str)
        ensures
            r@ == "bash"@,
    {
        "bash"
    }

    /// What the tool does, for the model.
    pub fn description(&self) -> (r: &'static str)
        ensures
            r@
                == "Execute a bash command in the current working directory. Returns stdout and stderr. Output is truncated to the last 2000 lines or 50KB (whichever is hit first); when truncated the full output is saved to a temp file. Optionally provide a timeout in seconds."@,
    {
        "Execute a bash command in the current working directory. Returns stdout and stderr. Output is truncated to the last 2000 lines or 50KB (whichever is hit first); when truncated the full output is saved to a temp file. Optionally provide a timeout in seconds."
    }

    /// The schema of the arguments.
    pub fn input_schema(&self) -> (r: Json)
        ensures
            r@ == schema(),
    {
        broadcast use json::group_json_view;

        let mut properties: Vec<(String, Json)> = Vec::new();
        properties.push(("command".to_string(), argument_json("string", "Bash command to execute")));
        properties.push(
            (
                "timeout".to_string(),
                argument_json("number", "Timeout in seconds (optional, no default timeout)"),
            ),
        );
        assert(json::entry_trees(properties@) =~= schema()->Object_0[1].1->Object_0);
        let mut required: Vec<Json> = Vec::new();
        required.push(Json::text("command"));
        assert(json::trees(required@) =~= schema()->Object_0[2].1->Array_0);
        let mut o: Vec<(String, Json)> = Vec::new();
        o.push(("type".to_string(), Json::text("object")));
        o.push(("properties".to_string(), Json::Object(properties)));
        o.push(("required".to_string(), Json::Array(required)));
        assert(json::entry_trees(o@) =~= schema()->Object_0);
        Json::Object(o)
    }

    /// What to launch for a call. `directory_exists` tells whether the working
    /// directory does, `shell` is the value of `SHELL`.
    pub fn prepare(
        &self,
        input: BashInput,
        directory_exists: bool,
        unix: bool,
        shell: &Option<String>,
    ) -> (r: Result<Launch, BashError>)
        ensures
            input.command is None <==> r == Err::<Launch, BashError>(BashError::NoCommand),
            input.command is Some && !directory_exists <==> (r matches Err(
                BashError::NoDirectory(cwd),
            ) && cwd@ == self.cwd@),
            input.command is Some && directory_exists <==> r is Ok,
            r matches Ok(launch) ==> {
                &&& launch.program@ == shell_named(unix, text::opt_view(*shell))
                &&& text::views(launch.args@) == seq![shell_flag(unix), input.command->0@]
                &&& launch.cwd@ == self.cwd@
                &&& launch.timeout == match input.timeout {
                    Some(secs) => if secs > 0 {
                        Some(secs)
                    } else {
                        None
                    },
                    None => None,
                }
            },
            prepared(
                self.cwd@,
                input,
                directory_exists,
                unix,
                text::opt_view(*shell),
                r,
            ),
    {
        broadcast use text::lemma_views_push;

        let command = match input.command {
            Some(command) => command,
            None => {
                return Err(BashError::NoCommand);
            },
        };
        if !directory_exists {
            return Err(BashError::NoDirectory(self.cwd.clone()));
        }
        let (program, mut args) = shell_program(unix, shell);
        let ghost text = command@;
        args.push(command);
        assert(text::views(args@) =~= seq![shell_flag(unix), text]);
        let timeout = match input.timeout {
            Some(secs) => if secs > 0 {
                Some(secs)
            } else {
                None
            },
            None => None,
        };
        Ok(Launch { program, args, cwd: self.cwd.clone(), timeout })
    }
}

// ---------------------------------------------------------------------------
// Answering
// ---------------------------------------------------------------------------

/// Text of bytes that need not be UTF-8 throughout: the result of
/// `String::from_utf8_lossy`.
pub uninterp spec fn utf8_lossy(bytes: Seq<u8>) -> Seq<char>;

/// `String::from_utf8_lossy`: bytes that are UTF-8 are decoded; the name
/// [`utf8_lossy`] stands for the result on all others, where replacement
/// characters stand in for what is not.
#[verifier::external_body]
fn lossy_text(bytes: &[u8]) -> (r: String)
    ensures
        r@ == utf8_lossy(bytes@),
        vstd::utf8::valid_utf8(bytes@) ==> r@ == vstd::utf8::decode_utf8(bytes@),
{
    String::from_utf8_lossy(bytes).into_owned()
}

/// The text of an output.
pub fn output_text(output: &[u8]) -> (r: String)
    ensures
        r@ == utf8_lossy(output@),
        vstd::utf8::valid_utf8(output@) ==> r@ == vstd::utf8::decode_utf8(output@),
{
    lossy_text(output)
}

/// The name of a file that holds a full output.
pub open spec fn log_name(id: Seq<char>) -> Seq<char> {
    "pi-bash-"@ + id + ".log"@
}

fn log_string(id: &str) -> (r: String)
    ensures
        r@ == log_name(id@),
{
    let mut s = "pi-bash-".to_string();
    s.append(id);
    s.append(".log");
    s
}

fn uuid_brief() -> (r: String)
    ensures
        ids::simple_form(r@),
{
    ids::fresh_simple()
}

/// A name for a file that is to hold a full output, with a fresh random
/// identifier in it.
pub fn fresh_log_name() -> (r: String)
    ensures
        exists|id: Seq<char>| #[trigger] log_name(id) == r@ && ids::simple_form(id),
{
    let id = uuid_brief();
    let name = log_string(id.as_str());
    assert(log_name(id@) == name@);
    name
}

/// Whether the full output has to be saved: it was cut, and is not blank.
pub open spec fn saves(content: Seq<char>, cut: Truncation) -> bool {
    !text::blank(content) && cut.truncated
}

/// Tells whether the full output has to be saved.
pub fn needs_saving(content: &str, cut: &Truncation) -> (r: bool)
    ensures
        r == saves(content@, *cut),
{
    !text::is_blank(content) && cut.truncated
}

/// The number of the first line that is shown.
pub open spec fn first_shown(cut: Truncation) -> int {
    if cut.total_lines > cut.output_lines {
        cut.total_lines - cut.output_lines + 1
    } else {
        1
    }
}

/// Whether the lines before the shown ones can be counted.
pub open spec fn countable(cut: Truncation) -> bool {
    first_shown(cut) <= usize::MAX
}

/// Whether the limit on lines was hit.
pub open spec fn by_lines(cut: Truncation) -> bool {
    text::opt_view(cut.truncated_by) == Some("lines"@)
}

/// What is said of a cut.
pub open spec fn notice(cut: Truncation, limit: Seq<char>, path: Seq<char>) -> Seq<char> {
    "\n\n[Showing lines "@ + text::decimal(first_shown(cut) as nat) + "-"@ + text::decimal(
        cut.total_lines as nat,
    ) + " of "@ + text::decimal(cut.total_lines as nat) + (if by_lines(cut) {
        Seq::empty()
    } else {
        " ("@ + limit + " limit)"@
    }) + ". Full output: "@ + path + "]"@
}

/// The text that reports an output.
pub open spec fn reported(
    content: Seq<char>,
    cut: Truncation,
    limit: Seq<char>,
    path: Seq<char>,
) -> Seq<char> {
    if text::blank(content) {
        "(no output)"@
    } else if cut.truncated {
        cut.content@ + notice(cut, limit, path)
    } else {
        content
    }
}

/// The details of a report.
pub open spec fn report_details(content: Seq<char>, cut: Truncation, path: Seq<char>) -> Tree {
    if saves(content, cut) {
        Tree::Object(seq![("truncated"@, Tree::Bool(true)), ("fullOutputPath"@, Tree::Str(path))])
    } else {
        Tree::Null
    }
}

fn notice_string(cut: &Truncation, limit: &str, path: &str) -> (r: String)
    requires
        countable(*cut),
    ensures
        r@ == notice(*cut, limit@, path@),
{
    let start: usize = if cut.total_lines > cut.output_lines {
        cut.total_lines - cut.output_lines + 1
    } else {
        1
    };
    let total = text::decimal_string(cut.total_lines as u64);
    let mut s = "\n\n[Showing lines ".to_string();
    s.append(text::decimal_string(start as u64).as_str());
    s.append("-");
    s.append(total.as_str());
    s.append(" of ");
    s.append(total.as_str());
    let lines = match &cut.truncated_by {
        Some(by) => text::same(by.as_str(), "lines"),
        None => false,
    };
    assert(lines == by_lines(*cut));
    if !lines {
        s.append(" (");
        s.append(limit);
        s.append(" limit)");
    }
    s.append(". Full output: ");
    s.append(path);
    s.append("]");
    assert(s@ =~= notice(*cut, limit@, path@));
    s
}

/// Reports an output: its text, and details for the front end. `cut` is its
/// tail, `limit` the size to which outputs are cut, written for people, and
/// `path` the file that holds the full output where it was saved.
pub fn format_output(content: &str, cut: &Truncation, limit: &str, path: &str) -> (r: (
    String,
    Json,
))
    requires
        countable(*cut),
    ensures
        r.0@ == reported(content@, *cut, limit@, path@),
        r.1@ == report_details(content@, *cut, path@),
{
    broadcast use json::group_json_view;

    if text::is_blank(content) {
        ("(no output)".to_string(), Json::Null)
    } else if cut.truncated {
        let mut s = cut.content.clone();
        s.append(notice_string(cut, limit, path).as_str());
        let mut o: Vec<(String, Json)> = Vec::new();
        o.push(("truncated".to_string(), Json::Bool(true)));
        o.push(("fullOutputPath".to_string(), Json::text(path)));
        assert(json::entry_trees(o@) =~= report_details(content@, *cut, path@)->Object_0);
        (s, Json::Object(o))
    } else {
        (content.to_string(), Json::Null)
    }
}

/// Whether a process has ended well: by its exit code, or stopped by a signal.
pub open spec fn succeeded(ended: Ended) -> bool {
    match ended {
        Ended::Exited(code) => code == Some(0i32) || code is None,
        _ => false,
    }
}

/// Whether a call is answered as it should be, given the timeout of the
/// process, how it has ended, and the report of its output.
pub open spec fn answers(
    timeout: Option<u64>,
    ended: Ended,
    report: Seq<char>,
    details: Tree,
    answer: Result<ToolResult, BashError>,
) -> bool {
    match answer {
        Ok(result) => {
            &&& succeeded(ended)
            &&& result.content@.len() == 1
            &&& result.content@[0] matches ToolResultContent::Text { text }
            &&& text@ == report
            &&& result.details@ == details
            &&& !result.terminate
        },
        Err(e) => match ended {
            Ended::Cancelled => e is Aborted,
            Ended::TimedOut => {
                &&& e matches BashError::TimedOut { text, secs }
                &&& text@ == report
                &&& secs == match timeout {
                    Some(s) => s,
                    None => 0u64,
                }
            },
            Ended::Exited(status) => {
                &&& !succeeded(ended)
                &&& e matches BashError::Failed { text, code }
                &&& text@ == report
                &&& status == Some(code)
            },
        },
    }
}

/// Answers a call once the process has ended.
pub fn finish(
    launch: &Launch,
    ended: &Ended,
    content: &str,
    cut: &Truncation,
    limit: &str,
    path: &str,
) -> (r: Result<ToolResult, BashError>)
    requires
        countable(*cut),
    ensures
        answers(
            launch.timeout,
            *ended,
            reported(content@, *cut, limit@, path@),
            report_details(content@, *cut, path@),
            r,
        ),
{
    match ended {
        Ended::Cancelled => Err(BashError::Aborted),
        Ended::TimedOut => {
            let (text, _details) = format_output(content, cut, limit, path);
            let secs: u64 = match launch.timeout {
                Some(s) => s,
                None => 0,
            };
            Err(BashError::TimedOut { text, secs })
        },
        Ended::Exited(status) => {
            let (text, details) = format_output(content, cut, limit, path);
            let code: i32 = match status {
                Some(code) => *code,
                None => 0,
            };
            if code != 0 {
                return Err(BashError::Failed { text, code });
            }
            let mut blocks: Vec<ToolResultContent> = Vec::new();
            blocks.push(ToolResultContent::Text { text });
            Ok(ToolResult { content: blocks, details, terminate: false })
        },
    }
}

// ---------------------------------------------------------------------------
// Laws
// ---------------------------------------------------------------------------

/// A command that failed or was killed after its timeout surfaces its output:
/// the message starts with all that a success would have reported.
pub proof fn law_failures_surface_the_output(
    timeout: Option<u64>,
    ended: Ended,
    report: Seq<char>,
    details: Tree,
    answer: Result<ToolResult, BashError>,
)
    requires
        answers(timeout, ended, report, details, answer),
        !succeeded(ended),
        !(ended is Cancelled),
    ensures
        answer is Err,
        report.is_prefix_of(error_message(answer->Err_0)),
{
    assert(error_message(answer->Err_0).take(report.len() as int) =~= report);
}

/// A cancelled call is never answered with a result, whatever its output was.
pub proof fn law_cancelled_calls_are_aborted(
    timeout: Option<u64>,
    report: Seq<char>,
    details: Tree,
    answer: Result<ToolResult, BashError>,
)
    requires
        answers(timeout, Ended::Cancelled, report, details, answer),
    ensures
        answer is Err,
        error_message(answer->Err_0) == "Command aborted"@,
{
}

/// Nothing of an output is lost: it is reported whole, or the details name the
/// file that holds all of it, or there was nothing but white space.
pub proof fn law_no_output_is_lost(
    content: Seq<char>,
    cut: Truncation,
    limit: Seq<char>,
    path: Seq<char>,
)
    ensures
        text::blank(content) || reported(content, cut, limit, path) == content || (
        json::text_field(report_details(content, cut, path), "fullOutputPath"@) == Some(path)
            && cut.content@.is_prefix_of(reported(content, cut, limit, path))),
        report_details(content, cut, path) is Null <==> !saves(content, cut),
{
    reveal_strlit("truncated");
    reveal_strlit("fullOutputPath");
    assert("truncated"@.len() != "fullOutputPath"@.len());
    if saves(content, cut) {
        let entries = report_details(content, cut, path)->Object_0;
        json::lemma_lookup_at(entries, 1);
        assert(reported(content, cut, limit, path).take(cut.content@.len() as int)
            =~= cut.content@);
    }
}

/// A process that exited with a code is answered with a result exactly if the
/// code is 0; with any other, the answer is a failure that carries the code. One
/// that a signal stopped has no code and is answered with a result.
pub proof fn law_only_code_zero_is_success(
    timeout: Option<u64>,
    status: Option<i32>,
    report: Seq<char>,
    details: Tree,
    answer: Result<ToolResult, BashError>,
)
    requires
        answers(timeout, Ended::Exited(status), report, details, answer),
    ensures
        status matches Some(c) ==> (answer is Ok <==> c == 0),
        status matches Some(c) ==> (c != 0 ==> (answer matches Err(BashError::Failed { text, code })
            && code == c && text@ == report)),
        status is None ==> answer is Ok,
{
}

/// A result holds the report of the output and its details, and nothing else, and
/// never stops the agent.
pub proof fn law_results_hold_the_report(
    timeout: Option<u64>,
    ended: Ended,
    report: Seq<char>,
    details: Tree,
    result: ToolResult,
)
    requires
        answers(timeout, ended, report, details, Ok(result)),
    ensures
        ended is Exited,
        result.content@.len() == 1,
        result.content@[0] matches ToolResultContent::Text { text } && text@ == report,
        result.details@ == details,
        !result.terminate,
{
}

/// A process that was killed after its timeout is never a success: the failure
/// holds what it had put out, and the seconds that it was given.
pub proof fn law_timeouts_are_failures(
    secs: u64,
    report: Seq<char>,
    details: Tree,
    answer: Result<ToolResult, BashError>,
)
    requires
        answers(Some(secs), Ended::TimedOut, report, details, answer),
    ensures
        answer is Err,
        error_message(answer->Err_0) == report + "\n\nCommand timed out after "@ + text::decimal(
            secs as nat,
        ) + " seconds"@,
{
}

/// A failure says what failed: the missing command, the missing directory, or
/// after the output the code with which the command exited.
pub proof fn law_failures_say_why(cwd: String, text: String, code: i32)
    ensures
        error_message(BashError::NoCommand) == "bash requires a 'command' parameter"@,
        error_message(BashError::NoDirectory(cwd)) == "Working directory does not exist: "@ + cwd@
            + "\nCannot execute bash commands."@,
        error_message(BashError::Aborted) == "Command aborted"@,
        code >= 0 ==> error_message(BashError::Failed { text, code }) == text@
            + "\n\nCommand exited with code "@ + text::decimal(code as nat),
        code < 0 ==> error_message(BashError::Failed { text, code }) == text@
            + "\n\nCommand exited with code "@ + ("-"@ + text::decimal((-code) as nat)),
{
}

/// On Unix a command is run by the shell that `SHELL` names, or by `/bin/sh`;
/// elsewhere by `cmd.exe`, whatever `SHELL` holds.
pub proof fn law_shells_follow_the_system(shell: Seq<char>, any: Option<Seq<char>>)
    ensures
        shell_named(true, Some(shell)) == shell,
        shell_named(true, None) == "/bin/sh"@,
        shell_named(false, any) == "cmd.exe"@,
        shell_flag(true) == "-c"@,
        shell_flag(false) == "/C"@,
{
}

/// An output that is not blank and was not cut is reported character for
/// character; a blank one is named as such; a cut one is reported by its tail and
/// the notice.
pub proof fn law_outputs_are_reported(
    content: Seq<char>,
    cut: Truncation,
    limit: Seq<char>,
    path: Seq<char>,
)
    ensures
        text::blank(content) ==> reported(content, cut, limit, path) == "(no output)"@,
        !text::blank(content) && !cut.truncated ==> reported(content, cut, limit, path) == content,
        !text::blank(content) && cut.truncated ==> cut.content@.is_prefix_of(
            reported(content, cut, limit, path),
        ) && reported(content, cut, limit, path).skip(cut.content@.len() as int) == notice(
            cut,
            limit,
            path,
        ),
        saves(content, cut) <==> !text::blank(content) && cut.truncated,
        saves(content, cut) ==> json::field(report_details(content, cut, path), "truncated"@)
            == Some(Tree::Bool(true)) && json::text_field(
            report_details(content, cut, path),
            "fullOutputPath"@,
        ) == Some(path),
        !saves(content, cut) ==> report_details(content, cut, path) is Null,
{
    let whole = cut.content@ + notice(cut, limit, path);
    assert(whole.take(cut.content@.len() as int) =~= cut.content@);
    assert(whole.skip(cut.content@.len() as int) =~= notice(cut, limit, path));
    reveal_strlit("truncated");
    reveal_strlit("fullOutputPath");
    assert("truncated"@.len() != "fullOutputPath"@.len());
    if saves(content, cut) {
        let entries = report_details(content, cut, path)->Object_0;
        json::lemma_lookup_at(entries, 0);
        json::lemma_lookup_at(entries, 1);
    }
}

/// The notice of a cut counts the lines that are shown, which are the last ones,
/// and names the file; the size limit is named unless the lines were too many.
pub proof fn law_notices_count_the_lines(
    cut: Truncation,
    limit: Seq<char>,
    path: Seq<char>,
    first: nat,
)
    requires
        first + cut.output_lines == cut.total_lines + 1,
        first >= 1,
    ensures
        text::opt_view(cut.truncated_by) == Some("lines"@) ==> notice(cut, limit, path)
            == "\n\n[Showing lines "@ + text::decimal(first) + "-"@ + text::decimal(
            cut.total_lines as nat,
        ) + " of "@ + text::decimal(cut.total_lines as nat) + ". Full output: "@ + path + "]"@,
        text::opt_view(cut.truncated_by) != Some("lines"@) ==> notice(cut, limit, path)
            == "\n\n[Showing lines "@ + text::decimal(first) + "-"@ + text::decimal(
            cut.total_lines as nat,
        ) + " of "@ + text::decimal(cut.total_lines as nat) + " ("@ + limit + " limit)"@
            + ". Full output: "@ + path + "]"@,
{
    let head = "\n\n[Showing lines "@ + text::decimal(first) + "-"@ + text::decimal(
        cut.total_lines as nat,
    ) + " of "@ + text::decimal(cut.total_lines as nat);
    if by_lines(cut) {
        assert(head + Seq::<char>::empty() =~= head);
    } else {
        assert(head + (" ("@ + limit + " limit)"@) =~= head + " ("@ + limit + " limit)"@);
    }
}

/// The file that holds a full output is named after its identifier.
pub proof fn law_logs_are_named_by_their_id(id: Seq<char>)
    ensures
        log_name(id) == "pi-bash-"@ + id + ".log"@,
        text::holds(log_name(id), id),
{
    let k = "pi-bash-"@.len() as int;
    assert(log_name(id).subrange(k, k + id.len()) =~= id);
}

/// The tool takes a command, which is a string and required, and a timeout, which
/// is a number.
pub proof fn law_the_schema_asks_for_a_command()
    ensures
        json::text_field(schema(), "type"@) == Some("object"@),
        json::field(schema(), "required"@) == Some(Tree::Array(seq![Tree::Str("command"@)])),
        ({
            &&& json::field(schema(), "properties"@) matches Some(properties)
            &&& properties->Object_0.len() == 2
            &&& json::field(properties, "command"@) matches Some(command)
            &&& json::text_field(command, "type"@) == Some("string"@)
            &&& json::field(properties, "timeout"@) matches Some(timeout)
            &&& json::text_field(timeout, "type"@) == Some("number"@)
        }),
{
    reveal_strlit("type");
    reveal_strlit("properties");
    reveal_strlit("required");
    reveal_strlit("command");
    reveal_strlit("timeout");
    reveal_strlit("description");
    assert("type"@.len() == 4);
    assert("properties"@.len() == 10);
    assert("required"@.len() == 8);
    assert("description"@.len() == 11);
    assert("command"@[0] == 'c');
    assert("timeout"@[0] == 't');
    let entries = schema()->Object_0;
    json::lemma_lookup_at(entries, 0);
    json::lemma_lookup_at(entries, 1);
    json::lemma_lookup_at(entries, 2);
    let properties = entries[1].1->Object_0;
    json::lemma_lookup_at(properties, 0);
    json::lemma_lookup_at(properties, 1);
    json::lemma_lookup_at(properties[0].1->Object_0, 0);
    json::lemma_lookup_at(properties[1].1->Object_0, 0);
}

/// A call is launched exactly if it has a command and the directory exists: the
/// command as it is, by the shell, in that directory, with the timeout that was
/// given unless it is zero. Otherwise the missing command is told first.
pub proof fn law_calls_launch_their_command(
    cwd: Seq<char>,
    input: BashInput,
    directory_exists: bool,
    unix: bool,
    shell: Option<Seq<char>>,
    r: Result<Launch, BashError>,
)
    requires
        prepared(cwd, input, directory_exists, unix, shell, r),
    ensures
        r is Ok <==> input.command is Some && directory_exists,
        input.command is None ==> r is Err && error_message(r->Err_0)
            == "bash requires a 'command' parameter"@,
        input.command is Some && !directory_exists ==> r is Err && error_message(r->Err_0)
            == "Working directory does not exist: "@ + cwd + "\nCannot execute bash commands."@,
        r matches Ok(launch) ==> {
            &&& launch.args@.len() == 2
            &&& launch.args@[1]@ == input.command->0@
            &&& unix ==> launch.args@[0]@ == "-c"@
            &&& !unix ==> launch.args@[0]@ == "/C"@
            &&& unix && shell is Some ==> launch.program@ == shell->0
            &&& unix && shell is None ==> launch.program@ == "/bin/sh"@
            &&& !unix ==> launch.program@ == "cmd.exe"@
            &&& launch.cwd@ == cwd
            &&& input.timeout is None ==> launch.timeout is None
            &&& input.timeout matches Some(secs) ==> (secs > 0 ==> launch.timeout == Some(secs))
            &&& launch.timeout matches Some(secs) ==> secs > 0 && input.timeout == Some(secs)
        },
{
    if let Ok(launch) = r {
        let views = text::views(launch.args@);
        assert(views.len() == 2);
        assert(views[0] == launch.args@[0]@);
        assert(views[1] == launch.args@[1]@);
    }
}

/// The lines of an output can be counted unless they are as many as a machine
/// word can hold; the lines that are shown end with the last one.
pub proof fn law_lines_can_be_counted(cut: Truncation)
    ensures
        cut.total_lines < usize::MAX ==> countable(cut),
        cut.total_lines >= cut.output_lines ==> first_shown(cut) + cut.output_lines
            == cut.total_lines + 1,
        cut.total_lines < cut.output_lines ==> first_shown(cut) == 1,
{
}

} // verus!
