//! Command-line settings and what they mean.

use vstd::prelude::*;

use crate::text;

verus! {

/// The parsed command line.
#[derive(Debug)]
pub struct Args {
    /// Prompts. None starts the interactive loop.
    pub messages: Vec<String>,
    /// `-p`/`--print`: process the prompt and exit.
    pub print: bool,
    /// `--mode`: `text` or `json` output of print runs.
    pub mode: String,
    /// `--output-format`: `text` or `stream-json`.
    pub output_format: String,
    /// `--input-format`: `text` or `stream-json`.
    pub input_format: String,
    /// `--model`: model id or `provider/id`.
    pub model: Option<String>,
    /// `--provider`.
    pub provider: Option<String>,
    /// `--api-key`.
    pub api_key: Option<String>,
    /// `--system-prompt`: replaces the system prompt.
    pub system_prompt: Option<String>,
    /// `--append-system-prompt`, repeatable.
    pub append_system_prompt: Vec<String>,
    /// `--thinking`: thinking level.
    pub thinking: Option<String>,
    /// `-c`/`--continue`: go on with the most recent session.
    pub continue_session: bool,
    /// `-r`/`--resume`: empty for the most recent session, else an id.
    pub resume: Option<String>,
    /// `--session`: a session file, or an id in the project's directory.
    pub session: Option<String>,
    /// `--session-id`.
    pub session_id: Option<String>,
    /// `--permission-mode`. Every mode resolves to allow-all.
    pub permission_mode: Option<String>,
    /// `--dangerously-skip-permissions`.
    pub dangerously_skip_permissions: bool,
    /// `--no-session`: keep nothing on disk.
    pub no_session: bool,
    /// `-t`/`--tools`: names of the tools to enable.
    pub tools: Vec<String>,
    /// `--exclude-tools`: names of the tools to disable.
    pub exclude_tools: Vec<String>,
    /// `-n`/`--no-tools`.
    pub no_tools: bool,
    /// `--no-builtin-tools`.
    pub no_builtin_tools: bool,
    /// `--no-cache`: no prompt caching.
    pub no_cache: bool,
    /// `--max-tokens`: output limit.
    pub max_tokens: Option<usize>,
    /// `--verbose`: show thinking.
    pub verbose: bool,
}

/// Output of a print run.
#[derive(Debug, Clone, Copy, PartialEq, Eq, Structural)]
pub enum OutputMode {
    Text,
    Json,
}

/// The mode that a name selects.
pub open spec fn output_mode_named(s: Seq<char>) -> Option<OutputMode> {
    if s == "text"@ {
        Some(OutputMode::Text)
    } else if s == "json"@ {
        Some(OutputMode::Json)
    } else {
        None
    }
}

impl OutputMode {
    /// Reads an output mode; other names are none.
    pub fn parse(s: &str) -> (r: Option<OutputMode>)
        ensures
            r == output_mode_named(s@),
    {
        if text::same(s, "text") {
            Some(OutputMode::Text)
        } else if text::same(s, "json") {
            Some(OutputMode::Json)
        } else {
            None
        }
    }
}

/// What the process does.
#[derive(Debug, Clone, Copy, PartialEq, Eq, Structural)]
pub enum AppMode {
    Interactive,
    Print(OutputMode),
    /// One turn, printed as `stream-json`.
    StreamJsonOneShot,
    /// Turns from standard input, printed as `stream-json`, until it ends.
    StreamJsonPersistent,
}

/// Whether a format is `stream-json`, white space around it aside.
pub open spec fn names_stream_json(s: Seq<char>) -> bool {
    text::trimmed(s) == "stream-json"@
}

/// `--output-format`. Unknown names mean text, so that no command line fails
/// for its format.
#[derive(Debug, Clone, Copy, PartialEq, Eq, Structural)]
pub enum OutputFormat {
    Text,
    StreamJson,
}

impl Default for OutputFormat {
    fn default() -> (r: OutputFormat)
        ensures
            r == OutputFormat::Text,
    {
        OutputFormat::Text
    }
}

impl OutputFormat {
    /// Reads an output format.
    pub fn parse(s: &str) -> (r: OutputFormat)
        ensures
            r == (if names_stream_json(s@) {
                OutputFormat::StreamJson
            } else {
                OutputFormat::Text
            }),
    {
        if text::same(text::trim(s), "stream-json") {
            OutputFormat::StreamJson
        } else {
            OutputFormat::Text
        }
    }
}

/// `--input-format`. Unknown names mean text.
#[derive(Debug, Clone, Copy, PartialEq, Eq, Structural)]
pub enum InputFormat {
    Text,
    StreamJson,
}

impl Default for InputFormat {
    fn default() -> (r: InputFormat)
        ensures
            r == InputFormat::Text,
    {
        InputFormat::Text
    }
}

impl InputFormat {
    /// Reads an input format.
    pub fn parse(s: &str) -> (r: InputFormat)
        ensures
            r == (if names_stream_json(s@) {
                InputFormat::StreamJson
            } else {
                InputFormat::Text
            }),
    {
        if text::same(text::trim(s), "stream-json") {
            InputFormat::StreamJson
        } else {
            InputFormat::Text
        }
    }
}

/// The id that `--resume` names; bare `--resume` names none.
pub open spec fn resume_id_of(args: Args) -> Option<Seq<char>> {
    match args.resume {
        Some(id) if id@.len() > 0 => Some(id@),
        _ => None,
    }
}

/// The session that the command line names: `--session-id`, else the id of
/// `--resume`.
pub open spec fn named_session(args: Args) -> Option<Seq<char>> {
    match args.session_id {
        Some(id) => Some(id@),
        None => resume_id_of(args),
    }
}

/// The permission mode to report.
pub open spec fn permission_label(args: Args) -> Seq<char> {
    if args.dangerously_skip_permissions {
        "bypassPermissions"@
    } else {
        match args.permission_mode {
            Some(mode) => mode@,
            None => "bypassPermissions"@,
        }
    }
}

impl Args {
    /// The requested output format.
    pub fn output_format(&self) -> (r: OutputFormat)
        ensures
            r == (if names_stream_json(self.output_format@) {
                OutputFormat::StreamJson
            } else {
                OutputFormat::Text
            }),
    {
        OutputFormat::parse(self.output_format.as_str())
    }

    /// The requested input format.
    pub fn input_format(&self) -> (r: InputFormat)
        ensures
            r == (if names_stream_json(self.input_format@) {
                InputFormat::StreamJson
            } else {
                InputFormat::Text
            }),
    {
        InputFormat::parse(self.input_format.as_str())
    }

    /// Whether `--resume` was given, with or without an id.
    pub fn resume_requested(&self) -> (r: bool)
        ensures
            r == (self.resume is Some),
    {
        self.resume.is_some()
    }

    /// The id given to `--resume`.
    pub fn resume_id(&self) -> (r: Option<&str>)
        ensures
            match r {
                Some(id) => resume_id_of(*self) == Some(id@),
                None => resume_id_of(*self) is None,
            },
    {
        match &self.resume {
            Some(id) => if id.as_str().is_empty() {
                None
            } else {
                Some(id.as_str())
            },
            None => None,
        }
    }

    /// The session that the command line names.
    pub fn named_session_id(&self) -> (r: Option<String>)
        ensures
            text::opt_view(r) == named_session(*self),
    {
        match &self.session_id {
            Some(id) => Some(id.clone()),
            None => match self.resume_id() {
                Some(id) => Some(id.to_string()),
                None => None,
            },
        }
    }

    /// The permission mode to report.
    pub fn permission_mode_label(&self) -> (r: String)
        ensures
            r@ == permission_label(*self),
    {
        if self.dangerously_skip_permissions {
            return "bypassPermissions".to_string();
        }
        match &self.permission_mode {
            Some(mode) => mode.clone(),
            None => "bypassPermissions".to_string(),
        }
    }
}

// ---------------------------------------------------------------------------
// Laws
// ---------------------------------------------------------------------------

/// Two names select an output mode, each its own; any other selects none.
pub proof fn law_output_modes_have_one_name(s: Seq<char>)
    ensures
        output_mode_named("text"@) == Some(OutputMode::Text),
        output_mode_named("json"@) == Some(OutputMode::Json),
        output_mode_named(s) is Some ==> s == "text"@ || s == "json"@,
{
    reveal_strlit("json");
    reveal_strlit("text");
    assert("json"@[0] == 'j');
    assert("text"@[0] == 't');
}

/// A format is `stream-json` whatever white space stands around the name, and
/// nothing else is.
pub proof fn law_formats_are_lenient(s: Seq<char>)
    ensures
        names_stream_json(s) <==> text::trimmed(s) == "stream-json"@,
        names_stream_json(s) ==> !text::blank(s),
{
    text::lemma_blank_trims_to_nothing(s);
    reveal_strlit("stream-json");
    assert("stream-json"@.len() == 11);
}

/// The session of a command line is the id of `--session-id`, else the id of
/// `--resume`, which may be bare and then names none.
pub proof fn law_session_ids_come_before_resumes(args: Args)
    ensures
        args.session_id matches Some(id) ==> named_session(args) == Some(id@),
        args.session_id is None && args.resume is Some && args.resume->0@.len() > 0
            ==> named_session(args) == Some(args.resume->0@),
        args.session_id is None && (args.resume is None || args.resume->0@.len() == 0)
            ==> named_session(args) is None,
        args.resume is Some && args.resume->0@.len() > 0 ==> resume_id_of(args) == Some(
            args.resume->0@,
        ),
        args.resume is None || args.resume->0@.len() == 0 ==> resume_id_of(args) is None,
{
}

/// The permission mode is the one that was given, unless prompts are skipped; by
/// default it is bypassed.
pub proof fn law_permissions_default_to_bypass(args: Args)
    ensures
        args.dangerously_skip_permissions ==> permission_label(args) == "bypassPermissions"@,
        !args.dangerously_skip_permissions && args.permission_mode is None ==> permission_label(
            args,
        ) == "bypassPermissions"@,
        !args.dangerously_skip_permissions && args.permission_mode is Some ==> permission_label(
            args,
        ) == args.permission_mode->0@,
{
}

} // verus!
