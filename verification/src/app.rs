//! Set-up shared by all modes: which mode runs, on which prompt, with which
//! tools, model, credentials, system prompt and session file.

use vstd::prelude::*;

use crate::cli;
use crate::cli::{AppMode, Args, InputFormat, OutputFormat, OutputMode};
use crate::ids;
use crate::text;
use crate::types::{Message, ThinkingLevel, UserMessage};

verus! {

// ---------------------------------------------------------------------------
// Mode
// ---------------------------------------------------------------------------

/// The mode that the command line asks for. The `stream-json` formats are wire
/// protocols and come before the choice between printing and the interactive
/// loop, input before output.
pub open spec fn app_mode(args: Args, stdin_is_tty: bool) -> AppMode {
    if cli::names_stream_json(args.input_format@) {
        AppMode::StreamJsonPersistent
    } else if cli::names_stream_json(args.output_format@) {
        AppMode::StreamJsonOneShot
    } else if args.print || !stdin_is_tty {
        AppMode::Print(
            match cli::output_mode_named(args.mode@) {
                Some(mode) => mode,
                None => OutputMode::Text,
            },
        )
    } else {
        AppMode::Interactive
    }
}

/// Decides which mode to run.
pub fn resolve_app_mode(args: &Args, stdin_is_tty: bool) -> (r: AppMode)
    ensures
        r == app_mode(*args, stdin_is_tty),
{
    if args.input_format() == InputFormat::StreamJson {
        return AppMode::StreamJsonPersistent;
    }
    if args.output_format() == OutputFormat::StreamJson {
        return AppMode::StreamJsonOneShot;
    }
    if args.print || !stdin_is_tty {
        let output = match OutputMode::parse(args.mode.as_str()) {
            Some(mode) => mode,
            None => OutputMode::Text,
        };
        AppMode::Print(output)
    } else {
        AppMode::Interactive
    }
}

// ---------------------------------------------------------------------------
// Prompt
// ---------------------------------------------------------------------------

/// Whether an argument names a file to inline: `@` and a name. `@@` escapes it.
pub open spec fn file_reference(arg: Seq<char>) -> bool {
    arg.len() > 1 && arg[0] == '@' && arg[1] != '@'
}

fn is_file_reference(arg: &str) -> (r: bool)
    ensures
        r == file_reference(arg@),
{
    arg.unicode_len() > 1 && arg.get_char(0) == '@' && arg.get_char(1) != '@'
}

/// The arguments that name files, in order.
pub open spec fn file_args(args: Seq<Seq<char>>) -> Seq<Seq<char>> {
    args.filter(|arg: Seq<char>| file_reference(arg))
}

/// The arguments that do not, in order.
pub open spec fn other_args(args: Seq<Seq<char>>) -> Seq<Seq<char>> {
    args.filter(|arg: Seq<char>| !file_reference(arg))
}

/// Parts the `@file` arguments from the rest.
pub fn split_file_args(raw: Vec<String>) -> (r: (Vec<String>, Vec<String>))
    ensures
        text::views(r.0@) == text::views(raw@).filter(|arg: Seq<char>| file_reference(arg)),
        text::views(r.1@) == text::views(raw@).filter(|arg: Seq<char>| !file_reference(arg)),
        text::views(r.0@) == file_args(text::views(raw@)),
        text::views(r.1@) == other_args(text::views(raw@)),
{
    broadcast use text::lemma_views_push;

    let ghost all = text::views(raw@);
    let ghost wanted = |arg: Seq<char>| file_reference(arg);
    let ghost other = |arg: Seq<char>| !file_reference(arg);
    let mut files: Vec<String> = Vec::new();
    let mut rest: Vec<String> = Vec::new();
    proof {
        reveal(Seq::filter);
        assert(text::views(files@) =~= all.take(0).filter(wanted));
        assert(text::views(rest@) =~= all.take(0).filter(other));
    }
    let mut i: usize = 0;
    while i < raw.len()
        invariant
            i <= raw.len(),
            all == text::views(raw@),
            wanted == (|arg: Seq<char>| file_reference(arg)),
            other == (|arg: Seq<char>| !file_reference(arg)),
            text::views(files@) == all.take(i as int).filter(wanted),
            text::views(rest@) == all.take(i as int).filter(other),
        decreases raw.len() - i,
    {
        proof {
            reveal(Seq::filter);
            assert(all.take(i + 1).drop_last() =~= all.take(i as int));
            assert(all.take(i + 1).last() == raw@[i as int]@);
        }
        if is_file_reference(raw[i].as_str()) {
            files.push(raw[i].clone());
        } else {
            rest.push(raw[i].clone());
        }
        i = i + 1;
    }
    assert(all.take(i as int) =~= all);
    (files, rest)
}

/// The path that a file reference names.
pub open spec fn path_named(arg: Seq<char>) -> Seq<char> {
    arg.skip(1)
}

/// The path of an `@file` argument.
pub fn file_path(arg: &str) -> (r: &str)
    requires
        file_reference(arg@),
    ensures
        r@ == arg@.skip(1),
        r@ == path_named(arg@),
{
    let n: usize = arg.unicode_len();
    assert(arg@.skip(1) =~= arg@.subrange(1, n as int));
    arg.substring_char(1, n)
}

/// The section of an inlined file.
pub open spec fn file_section(index: nat, content: Seq<char>) -> Seq<char> {
    "@file["@ + text::decimal(index) + "]\n"@ + content
}

/// The sections of the inlined files.
pub open spec fn file_sections(contents: Seq<Seq<char>>) -> Seq<Seq<char>> {
    Seq::new(contents.len(), |i: int| file_section(i as nat, contents[i]))
}

/// The parts of the first prompt: the positional prompts, unless they are
/// blank, then the inlined files.
pub open spec fn initial_parts(prompts: Seq<Seq<char>>, files: Seq<Seq<char>>) -> Seq<Seq<char>> {
    let combined = text::join(prompts, "\n\n"@);
    if text::blank(combined) {
        file_sections(files)
    } else {
        seq![combined] + file_sections(files)
    }
}

/// The text of the first prompt, if there is anything to send.
pub open spec fn initial_text(prompts: Seq<Seq<char>>, files: Seq<Seq<char>>) -> Option<Seq<char>> {
    let parts = initial_parts(prompts, files);
    if parts.len() == 0 {
        None
    } else {
        Some(text::join(parts, "\n\n"@))
    }
}

/// Whether a message is the prompt with this text, or none where there is none.
pub open spec fn prompts_with(message: Option<Message>, prompt: Option<Seq<char>>) -> bool {
    match message {
        Some(Message::User(u)) => prompt == Some(u.content@),
        Some(_) => false,
        None => prompt is None,
    }
}

/// Builds the first prompt from the positional prompts and the contents of the
/// `@file` arguments. `None` where there is nothing to send.
pub fn build_initial_messages(prompts: &Vec<String>, file_contents: &Vec<String>) -> (r: Option<
    Message,
>)
    ensures
        ({
            let parts = initial_parts(text::views(prompts@), text::views(file_contents@));
            match r {
                Some(Message::User(u)) => parts.len() > 0 && u.content@ == text::join(
                    parts,
                    "\n\n"@,
                ),
                Some(_) => false,
                None => parts.len() == 0,
            }
        }),
        prompts_with(r, initial_text(text::views(prompts@), text::views(file_contents@))),
{
    broadcast use text::lemma_views_push;

    let ghost goal = initial_parts(text::views(prompts@), text::views(file_contents@));
    let ghost sections = file_sections(text::views(file_contents@));
    let mut parts: Vec<String> = Vec::new();
    assert(text::views(parts@) =~= Seq::empty());
    let combined = text::join_strings(prompts, "\n\n");
    if !text::is_blank(combined.as_str()) {
        parts.push(combined);
    }
    let ghost head = text::views(parts@);
    assert(goal =~= head + sections);
    let mut i: usize = 0;
    assert(head + sections.take(0) =~= head);
    while i < file_contents.len()
        invariant
            i <= file_contents.len(),
            sections == file_sections(text::views(file_contents@)),
            text::views(parts@) == head + sections.take(i as int),
        decreases file_contents.len() - i,
    {
        let mut part: String = "@file[".to_string();
        part.append(text::decimal_string(i as u64).as_str());
        part.append("]\n");
        part.append(file_contents[i].as_str());
        proof {
            text::lemma_take_push(sections, i as int);
            assert(part@ == sections[i as int]);
            assert((head + sections.take(i as int)).push(part@) =~= head + sections.take(i + 1));
        }
        parts.push(part);
        i = i + 1;
    }
    assert(sections.take(i as int) =~= sections);
    if parts.is_empty() {
        return None;
    }
    Some(Message::User(UserMessage::text(text::join_strings(&parts, "\n\n"))))
}

/// The prompt that piped input makes.
pub open spec fn piped_text(content: Seq<char>) -> Option<Seq<char>> {
    if text::blank(content) {
        None
    } else {
        Some(content)
    }
}

/// Turns piped input into a prompt; blank input is none.
pub fn stdin_to_prompt(content: String) -> (r: Option<Message>)
    ensures
        match r {
            Some(Message::User(u)) => !text::blank(content@) && u.content == content,
            Some(_) => false,
            None => text::blank(content@),
        },
        prompts_with(r, piped_text(content@)),
{
    if text::is_blank(content.as_str()) {
        None
    } else {
        Some(Message::User(UserMessage::text(content)))
    }
}

/// Where the prompt of a one-shot run comes from.
#[derive(Debug, Clone, Copy, PartialEq, Eq, Structural)]
pub enum PromptSource {
    /// The command line.
    CommandLine,
    /// Piped standard input, if it is not blank.
    Stdin,
    /// Nowhere: the run fails.
    Missing,
}

/// Where the prompt of a one-shot run comes from.
pub open spec fn source_of_prompt(has_initial: bool, stdin_is_tty: bool) -> PromptSource {
    if has_initial {
        PromptSource::CommandLine
    } else if !stdin_is_tty {
        PromptSource::Stdin
    } else {
        PromptSource::Missing
    }
}

/// Decides where the prompt of a one-shot run comes from.
pub fn prompt_source(has_initial: bool, stdin_is_tty: bool) -> (r: PromptSource)
    ensures
        r == (if has_initial {
            PromptSource::CommandLine
        } else if !stdin_is_tty {
            PromptSource::Stdin
        } else {
            PromptSource::Missing
        }),
        r == source_of_prompt(has_initial, stdin_is_tty),
{
    if has_initial {
        PromptSource::CommandLine
    } else if !stdin_is_tty {
        PromptSource::Stdin
    } else {
        PromptSource::Missing
    }
}

// ---------------------------------------------------------------------------
// Credentials, tools and model
// ---------------------------------------------------------------------------

/// An environment variable that is set and not empty.
pub open spec fn set_variable(value: Option<String>) -> Option<Seq<char>> {
    match value {
        Some(v) if v@.len() > 0 => Some(v@),
        _ => None,
    }
}

fn nonempty(value: &Option<String>) -> (r: Option<String>)
    ensures
        text::opt_view(r) == set_variable(*value),
{
    match value {
        Some(v) => if v.as_str().is_empty() {
            None
        } else {
            Some(v.clone())
        },
        None => None,
    }
}

/// The API key: `--api-key`, else `ANTHROPIC_API_KEY`.
pub open spec fn api_key(args: Args, env_api_key: Option<String>) -> Option<Seq<char>> {
    match args.api_key {
        Some(key) => Some(key@),
        None => set_variable(env_api_key),
    }
}

/// Resolves the API key and the bearer token from the command line and the
/// values of `ANTHROPIC_API_KEY` and `ANTHROPIC_AUTH_TOKEN`.
pub fn resolve_credentials(
    args: &Args,
    env_api_key: &Option<String>,
    env_auth_token: &Option<String>,
) -> (r: (Option<String>, Option<String>))
    ensures
        text::opt_view(r.0) == api_key(*args, *env_api_key),
        text::opt_view(r.1) == set_variable(*env_auth_token),
{
    let auth_token = nonempty(env_auth_token);
    let key = match &args.api_key {
        Some(key) => Some(key.clone()),
        None => nonempty(env_api_key),
    };
    (key, auth_token)
}

fn contains_name(names: &Vec<String>, name: &str) -> (r: bool)
    ensures
        r == text::views(names@).contains(name@),
{
    let ghost all = text::views(names@);
    let mut i: usize = 0;
    while i < names.len()
        invariant
            i <= names.len(),
            all == text::views(names@),
            forall|k: int| 0 <= k < i ==> #[trigger] all[k] != name@,
        decreases names.len() - i,
    {
        assert(all[i as int] == names@[i as int]@);
        if text::same(names[i].as_str(), name) {
            return true;
        }
        i = i + 1;
    }
    false
}

/// The tools that the flags enable: none, those selected by name, or else the
/// coding tools; without the excluded ones.
pub open spec fn enabled_tools(
    args: Args,
    coding: Seq<Seq<char>>,
    selected: Seq<Seq<char>>,
) -> Seq<Seq<char>> {
    if args.no_tools || args.no_builtin_tools {
        Seq::empty()
    } else {
        let base = if args.tools@.len() == 0 {
            coding
        } else {
            selected
        };
        base.filter(|name: Seq<char>| !text::views(args.exclude_tools@).contains(name))
    }
}

/// Picks the tools to enable. `coding` names the coding tools, `selected` the
/// tools that `--tools` selects.
pub fn build_tools(args: &Args, coding: &Vec<String>, selected: &Vec<String>) -> (r: Vec<String>)
    ensures
        text::views(r@) == enabled_tools(
            *args,
            text::views(coding@),
            text::views(selected@),
        ),
{
    broadcast use text::lemma_views_push;

    let mut out: Vec<String> = Vec::new();
    assert(text::views(out@) =~= Seq::empty());
    if args.no_tools || args.no_builtin_tools {
        return out;
    }
    let base: &Vec<String> = if args.tools.is_empty() {
        coding
    } else {
        selected
    };
    let ghost all = text::views(base@);
    let ghost keep = |name: Seq<char>| !text::views(args.exclude_tools@).contains(name);
    proof {
        reveal(Seq::filter);
        assert(text::views(out@) =~= all.take(0).filter(keep));
    }
    let mut i: usize = 0;
    while i < base.len()
        invariant
            i <= base.len(),
            all == text::views(base@),
            keep == (|name: Seq<char>| !text::views(args.exclude_tools@).contains(name)),
            text::views(out@) == all.take(i as int).filter(keep),
        decreases base.len() - i,
    {
        proof {
            reveal(Seq::filter);
            assert(all.take(i + 1).drop_last() =~= all.take(i as int));
            assert(all.take(i + 1).last() == base@[i as int]@);
        }
        if !contains_name(&args.exclude_tools, base[i].as_str()) {
            out.push(base[i].clone());
        }
        i = i + 1;
    }
    assert(all.take(i as int) =~= all);
    out
}

/// Whether the command line asks for a model or a provider.
pub open spec fn model_asked(args: Args) -> bool {
    args.model is Some || args.provider is Some
}

/// The pattern that selects the model: `provider/model`, either alone, or the
/// first model of the registry.
pub open spec fn model_pattern_of(args: Args, registry: Seq<Seq<char>>) -> Seq<char> {
    match (args.provider, args.model) {
        (Some(p), Some(m)) => p@ + "/"@ + m@,
        (Some(p), None) => p@,
        (None, Some(m)) => m@,
        (None, None) => registry[0],
    }
}

/// Builds the pattern that selects the model.
pub fn model_pattern(args: &Args, registry: &Vec<String>) -> (r: String)
    requires
        registry@.len() > 0 || model_asked(*args),
    ensures
        r@ == model_pattern_of(*args, text::views(registry@)),
{
    match &args.provider {
        Some(p) => {
            let mut pattern = p.clone();
            if let Some(m) = &args.model {
                pattern.append("/");
                pattern.append(m.as_str());
            }
            pattern
        },
        None => match &args.model {
            Some(m) => m.clone(),
            None => registry[0].clone(),
        },
    }
}

/// The model that a run uses.
#[derive(Debug, Clone, Copy, PartialEq, Eq, Structural)]
pub enum ModelChoice {
    /// The one that the pattern resolves to.
    Resolved,
    /// The first of the registry.
    First,
}

/// Why a session cannot be set up.
#[derive(Debug)]
pub enum SetupError {
    /// The pattern matches no model of the registry.
    UnknownModel { pattern: String, available: Vec<String> },
    /// There is neither an API key nor a bearer token.
    NoCredentials,
    /// The file that `--session` names does not exist.
    SessionNotFound { path: String },
}

/// What is printed for an error.
pub open spec fn error_message(e: SetupError) -> Seq<char> {
    match e {
        SetupError::UnknownModel { pattern, available } => "Could not resolve model '"@ + pattern@
            + "'. Available: "@ + text::join(text::views(available@), ", "@),
        SetupError::NoCredentials =>
            "No Anthropic credentials found. Set the ANTHROPIC_API_KEY environment variable (or ANTHROPIC_AUTH_TOKEN for a Bearer token), or pass --api-key <key>."@,
        SetupError::SessionNotFound { path } => "Session file not found: "@ + path@,
    }
}

impl SetupError {
    /// What is printed for the error.
    pub fn message(&self) -> (r: String)
        ensures
            r@ == error_message(*self),
    {
        match self {
            SetupError::UnknownModel { pattern, available } => {
                let mut s = "Could not resolve model '".to_string();
                s.append(pattern.as_str());
                s.append("'. Available: ");
                s.append(text::join_strings(available, ", ").as_str());
                s
            },
            SetupError::NoCredentials =>
                "No Anthropic credentials found. Set the ANTHROPIC_API_KEY environment variable (or ANTHROPIC_AUTH_TOKEN for a Bearer token), or pass --api-key <key>.".to_string(),
            SetupError::SessionNotFound { path } => {
                let mut s = "Session file not found: ".to_string();
                s.append(path.as_str());
                s
            },
        }
    }
}

fn copy_strings(strings: &Vec<String>) -> (r: Vec<String>)
    ensures
        text::views(r@) == text::views(strings@),
{
    broadcast use text::lemma_views_push;

    let ghost all = text::views(strings@);
    let mut out: Vec<String> = Vec::new();
    assert(text::views(out@) =~= all.take(0));
    let mut i: usize = 0;
    while i < strings.len()
        invariant
            i <= strings.len(),
            all == text::views(strings@),
            text::views(out@) == all.take(i as int),
        decreases strings.len() - i,
    {
        proof {
            text::lemma_take_push(all, i as int);
        }
        out.push(strings[i].clone());
        i = i + 1;
    }
    assert(all.take(i as int) =~= all);
    out
}

/// Whether a choice of model, or the error in its place, is the right one.
pub open spec fn model_chosen(
    args: Args,
    registry: Seq<Seq<char>>,
    resolves: bool,
    chosen: Result<ModelChoice, SetupError>,
) -> bool {
    match chosen {
        Ok(ModelChoice::Resolved) => resolves,
        Ok(ModelChoice::First) => !resolves && !model_asked(args),
        Err(SetupError::UnknownModel { pattern, available }) => {
            &&& !resolves
            &&& model_asked(args)
            &&& pattern@ == model_pattern_of(args, registry)
            &&& text::views(available@) == registry
        },
        Err(_) => false,
    }
}

/// Chooses the model. `resolves` tells whether the registry has a match for the
/// pattern. A model that was asked for and has none is an error.
pub fn resolve_selected_model(args: &Args, registry: &Vec<String>, resolves: bool) -> (r: Result<
    ModelChoice,
    SetupError,
>)
    requires
        registry@.len() > 0 || model_asked(*args),
    ensures
        match r {
            Ok(choice) => (resolves || !model_asked(*args)) && choice == (if resolves {
                ModelChoice::Resolved
            } else {
                ModelChoice::First
            }),
            Err(SetupError::UnknownModel { pattern, available }) => {
                &&& !resolves && model_asked(*args)
                &&& pattern@ == model_pattern_of(*args, text::views(registry@))
                &&& text::views(available@) == text::views(registry@)
            },
            Err(_) => false,
        },
        model_chosen(*args, text::views(registry@), resolves, r),
{
    if resolves {
        return Ok(ModelChoice::Resolved);
    }
    if args.model.is_some() || args.provider.is_some() {
        return Err(
            SetupError::UnknownModel {
                pattern: model_pattern(args, registry),
                available: copy_strings(registry),
            },
        );
    }
    Ok(ModelChoice::First)
}

/// The thinking level that the command line asks for. `parsed` is the level that
/// its name selects; where it names none that exists, it is medium.
pub open spec fn thinking_level(args: Args, parsed: Option<ThinkingLevel>) -> ThinkingLevel {
    if args.thinking is Some && parsed is Some {
        parsed->0
    } else {
        ThinkingLevel::Medium
    }
}

/// Resolves the thinking level. `parsed` is the level that the name selects.
pub fn resolve_thinking(args: &Args, parsed: Option<ThinkingLevel>) -> (r: ThinkingLevel)
    ensures
        r == thinking_level(*args, parsed),
{
    match (&args.thinking, parsed) {
        (Some(_), Some(level)) => level,
        _ => ThinkingLevel::Medium,
    }
}

// ---------------------------------------------------------------------------
// Session
// ---------------------------------------------------------------------------

/// The id to report, given one to fall back on.
pub open spec fn reported_id(args: Args, fresh: Seq<char>) -> Seq<char> {
    match cli::named_session(args) {
        Some(id) => id,
        None => fresh,
    }
}

/// The id to report, with a fallback for a command line that names none.
pub fn session_id_or(args: &Args, fresh: String) -> (r: String)
    ensures
        r@ == (match cli::named_session(*args) {
            Some(id) => id,
            None => fresh@,
        }),
        r@ == reported_id(*args, fresh@),
{
    match args.named_session_id() {
        Some(id) => id,
        None => fresh,
    }
}

/// The id to report in every line: the one that the command line names, else a
/// fresh one.
pub fn session_id(args: &Args) -> (r: String)
    ensures
        cli::named_session(*args) matches Some(id) ==> r@ == id,
        cli::named_session(*args) is None ==> ids::hyphenated_form(r@),
{
    session_id_or(args, ids::fresh_hyphenated())
}

/// The file name of a session id.
pub open spec fn session_file_name(id: Seq<char>) -> Seq<char> {
    id + ".jsonl"@
}

/// Builds the file name of a session id.
pub fn session_file(id: &str) -> (r: String)
    ensures
        r@ == session_file_name(id@),
{
    let mut name = id.to_string();
    name.append(".jsonl");
    name
}

/// The file in the project's session directory that `--session` means, if it is
/// not an absolute path.
pub open spec fn project_file(sess: Seq<char>, absolute: bool) -> Option<Seq<char>> {
    if absolute {
        None
    } else {
        Some(session_file_name(sess))
    }
}

/// Where `--session` points. `absolute` tells whether the value, with `~`
/// expanded, is an absolute path: then that path is meant (`None`), otherwise a
/// file in the project's session directory.
pub fn expand_session_path(sess: &str, absolute: bool) -> (r: Option<String>)
    ensures
        text::opt_view(r) == (if absolute {
            None
        } else {
            Some(session_file_name(sess@))
        }),
        text::opt_view(r) == project_file(sess@, absolute),
{
    if absolute {
        None
    } else {
        Some(session_file(sess))
    }
}

/// Where the transcript is kept.
#[derive(Debug)]
pub enum SessionTarget {
    /// Nowhere.
    Ephemeral,
    /// Where `--session` points.
    Given(String),
    /// This file in the project's session directory.
    InProject(String),
    /// The project's default session file.
    Default,
}

/// Whether a target is the one that the command line asks for: `--no-session`,
/// then `--session`, then a named session, then the default.
pub open spec fn session_target(args: Args, target: SessionTarget) -> bool {
    if args.no_session {
        target is Ephemeral
    } else if args.session is Some {
        target matches SessionTarget::Given(sess) && sess@ == args.session->0@
    } else {
        match cli::named_session(args) {
            Some(id) => target matches SessionTarget::InProject(file) && file@
                == session_file_name(id),
            None => target is Default,
        }
    }
}

/// Decides where the transcript is kept.
pub fn resolve_session_target(args: &Args) -> (r: SessionTarget)
    ensures
        session_target(*args, r),
{
    if args.no_session {
        return SessionTarget::Ephemeral;
    }
    if let Some(sess) = &args.session {
        return SessionTarget::Given(sess.clone());
    }
    match args.named_session_id() {
        Some(id) => SessionTarget::InProject(session_file(id.as_str())),
        None => SessionTarget::Default,
    }
}

/// Whether an existing transcript is wanted.
pub open spec fn resume_wanted(args: Args) -> bool {
    args.continue_session || args.resume is Some || args.session is Some || cli::named_session(args)
        is Some
}

/// Whether an existing transcript is wanted.
pub fn wants_resume(args: &Args) -> (r: bool)
    ensures
        r == resume_wanted(*args),
{
    args.continue_session || args.resume_requested() || args.session.is_some()
        || args.named_session_id().is_some()
}

/// Whether the file that the command line names with `--session` is missing.
pub open spec fn session_missing(args: Args, exists: bool) -> bool {
    !args.no_session && args.session is Some && !exists
}

/// Whether an existing transcript is wanted and there.
pub open spec fn transcript_loaded(args: Args, exists: bool) -> bool {
    !args.no_session && resume_wanted(args) && exists
}

/// Decides whether to load the transcript at the target. `exists` tells whether
/// its file is there, `path` is how it is shown. A file that `--session` names
/// must exist; any other is made on the first save.
pub fn load_transcript(args: &Args, target: &SessionTarget, exists: bool, path: &str) -> (r: Result<
    bool,
    SetupError,
>)
    requires
        session_target(*args, *target),
    ensures
        match r {
            Ok(load) => {
                &&& !session_missing(*args, exists)
                &&& load == transcript_loaded(*args, exists)
            },
            Err(SetupError::SessionNotFound { path: shown }) => {
                &&& session_missing(*args, exists)
                &&& shown@ == path@
            },
            Err(_) => false,
        },
{
    match target {
        SessionTarget::Ephemeral => Ok(false),
        _ => {
            if !wants_resume(args) {
                return Ok(false);
            }
            if exists {
                Ok(true)
            } else if args.session.is_some() {
                Err(SetupError::SessionNotFound { path: path.to_string() })
            } else {
                Ok(false)
            }
        },
    }
}

/// Whether the `skill` tool is offered: some skill was found, neither the tools
/// nor this one are disabled, and `--tools`, where it is given, names it.
pub open spec fn skills_offered(args: Args, any_skills: bool) -> bool {
    &&& !args.no_tools
    &&& !args.no_builtin_tools
    &&& any_skills
    &&& !text::views(args.exclude_tools@).contains("skill"@)
    &&& args.tools@.len() == 0 || text::views(args.tools@).contains("skill"@)
}

/// Whether the `skill` tool is offered.
pub fn skills_enabled(args: &Args, any_skills: bool) -> (r: bool)
    ensures
        r == skills_offered(*args, any_skills),
{
    !args.no_tools && !args.no_builtin_tools && any_skills && !contains_name(
        &args.exclude_tools,
        "skill",
    ) && (args.tools.is_empty() || contains_name(&args.tools, "skill"))
}

/// How the system prompt comes about.
#[derive(Debug)]
pub enum PromptPlan {
    /// It is this text.
    Replace(String),
    /// It is assembled, with more text at its end.
    Assemble { extra: Option<String> },
}

/// Whether a plan is the one that the command line asks for.
pub open spec fn prompt_plan(args: Args, plan: PromptPlan) -> bool {
    match args.system_prompt {
        Some(prompt) => plan matches PromptPlan::Replace(s) && s@ == prompt@,
        None => plan matches PromptPlan::Assemble { extra } && text::opt_view(extra) == (
        if args.append_system_prompt@.len() == 0 {
            None
        } else {
            Some(text::join(text::views(args.append_system_prompt@), "\n\n"@))
        }),
    }
}

/// Decides how the system prompt comes about.
pub fn plan_prompt(args: &Args) -> (r: PromptPlan)
    ensures
        prompt_plan(*args, r),
{
    match &args.system_prompt {
        Some(prompt) => PromptPlan::Replace(prompt.clone()),
        None => {
            let extra = if args.append_system_prompt.is_empty() {
                None
            } else {
                Some(text::join_strings(&args.append_system_prompt, "\n\n"))
            };
            PromptPlan::Assemble { extra }
        },
    }
}

/// What the surroundings tell.
#[derive(Debug)]
pub struct Surroundings {
    /// Ids of the known models.
    pub registry: Vec<String>,
    /// Whether the model pattern matches one of them.
    pub resolves: bool,
    /// The thinking level that the name on the command line selects.
    pub thinking: Option<ThinkingLevel>,
    /// Names of the coding tools.
    pub coding: Vec<String>,
    /// Names of the tools that `--tools` selects.
    pub selected: Vec<String>,
    /// Whether there are skills.
    pub any_skills: bool,
    /// `ANTHROPIC_API_KEY`.
    pub env_api_key: Option<String>,
    /// `ANTHROPIC_AUTH_TOKEN`.
    pub env_auth_token: Option<String>,
    /// How the path of the session target is shown.
    pub session_path: String,
    /// Whether the file of the session target exists.
    pub session_exists: bool,
}

/// A session to be opened.
#[derive(Debug)]
pub struct SessionPlan {
    pub model: ModelChoice,
    pub thinking: ThinkingLevel,
    /// Names of the tools, in order.
    pub tools: Vec<String>,
    /// Whether skills are offered.
    pub skills: bool,
    pub api_key: Option<String>,
    pub auth_token: Option<String>,
    pub prompt: PromptPlan,
    pub target: SessionTarget,
    /// Whether the transcript at the target is loaded.
    pub load: bool,
    pub max_tokens: Option<usize>,
    pub cache_control: bool,
}

/// The tools of a session: those the flags enable, then `skill` where skills
/// are offered.
pub open spec fn session_tools(args: Args, around: Surroundings) -> Seq<Seq<char>> {
    let base = enabled_tools(
        args,
        text::views(around.coding@),
        text::views(around.selected@),
    );
    if skills_offered(args, around.any_skills) {
        base.push("skill"@)
    } else {
        base
    }
}

/// Whether there is a credential.
pub open spec fn has_credentials(args: Args, around: Surroundings) -> bool {
    api_key(args, around.env_api_key) is Some || set_variable(around.env_auth_token) is Some
}

/// Whether a plan is the one that the command line asks for.
pub open spec fn planned(args: Args, around: Surroundings, plan: SessionPlan) -> bool {
    &&& plan.model == (if around.resolves {
        ModelChoice::Resolved
    } else {
        ModelChoice::First
    })
    &&& plan.thinking == thinking_level(args, around.thinking)
    &&& text::views(plan.tools@) == session_tools(args, around)
    &&& plan.skills == skills_offered(args, around.any_skills)
    &&& text::opt_view(plan.api_key) == api_key(args, around.env_api_key)
    &&& text::opt_view(plan.auth_token) == set_variable(around.env_auth_token)
    &&& prompt_plan(args, plan.prompt)
    &&& session_target(args, plan.target)
    &&& plan.load == transcript_loaded(args, around.session_exists)
    &&& plan.max_tokens == args.max_tokens
    &&& plan.cache_control == !args.no_cache
}

/// Whether a plan, or the error in its place, is the right one: the model comes
/// first, then the credentials, then the session file.
pub open spec fn session_planned(
    args: Args,
    around: Surroundings,
    planned_session: Result<SessionPlan, SetupError>,
) -> bool {
    let unknown = model_asked(args) && !around.resolves;
    match planned_session {
        Ok(plan) => {
            &&& !unknown
            &&& has_credentials(args, around)
            &&& !session_missing(args, around.session_exists)
            &&& planned(args, around, plan)
        },
        Err(SetupError::UnknownModel { pattern, available }) => {
            &&& unknown
            &&& pattern@ == model_pattern_of(args, text::views(around.registry@))
            &&& text::views(available@) == text::views(around.registry@)
        },
        Err(SetupError::NoCredentials) => !unknown && !has_credentials(args, around),
        Err(SetupError::SessionNotFound { path }) => {
            &&& !unknown
            &&& has_credentials(args, around)
            &&& session_missing(args, around.session_exists)
            &&& path@ == around.session_path@
        },
    }
}

/// Plans a session. An unknown model is reported before missing credentials,
/// and those before a session file that does not exist.
pub fn build_session(args: &Args, around: &Surroundings) -> (r: Result<SessionPlan, SetupError>)
    requires
        around.registry@.len() > 0 || model_asked(*args),
    ensures
        ({
            let known = around.resolves || !model_asked(*args);
            match r {
                Ok(plan) => {
                    &&& known
                    &&& has_credentials(*args, *around)
                    &&& !session_missing(*args, around.session_exists)
                    &&& planned(*args, *around, plan)
                },
                Err(SetupError::UnknownModel { pattern, available }) => {
                    &&& !known
                    &&& pattern@ == model_pattern_of(*args, text::views(around.registry@))
                    &&& text::views(available@) == text::views(around.registry@)
                },
                Err(SetupError::NoCredentials) => known && !has_credentials(*args, *around),
                Err(SetupError::SessionNotFound { path }) => {
                    &&& known
                    &&& has_credentials(*args, *around)
                    &&& session_missing(*args, around.session_exists)
                    &&& path@ == around.session_path@
                },
            }
        }),
        session_planned(*args, *around, r),
{
    broadcast use text::lemma_views_push;

    let model = match resolve_selected_model(args, &around.registry, around.resolves) {
        Ok(model) => model,
        Err(e) => {
            return Err(e);
        },
    };
    let thinking = resolve_thinking(args, around.thinking);
    let mut tools = build_tools(args, &around.coding, &around.selected);
    let skills = skills_enabled(args, around.any_skills);
    if skills {
        tools.push("skill".to_string());
    }
    let (api_key, auth_token) = resolve_credentials(
        args,
        &around.env_api_key,
        &around.env_auth_token,
    );
    if api_key.is_none() && auth_token.is_none() {
        return Err(SetupError::NoCredentials);
    }
    let prompt = plan_prompt(args);
    let target = resolve_session_target(args);
    let load = match load_transcript(
        args,
        &target,
        around.session_exists,
        around.session_path.as_str(),
    ) {
        Ok(load) => load,
        Err(e) => {
            return Err(e);
        },
    };
    Ok(
        SessionPlan {
            model,
            thinking,
            tools,
            skills,
            api_key,
            auth_token,
            prompt,
            target,
            load,
            max_tokens: args.max_tokens,
            cache_control: !args.no_cache,
        },
    )
}

/// The messages that a session starts with: the transcript where one is to be
/// loaded and could be, else those given.
pub open spec fn first_messages<M>(load: bool, loaded: Option<Vec<M>>, given: Vec<M>) -> Vec<M> {
    if load && loaded is Some {
        loaded->0
    } else {
        given
    }
}

/// Chooses the messages that a session starts with.
pub fn starting_messages<M>(load: bool, loaded: Option<Vec<M>>, given: Vec<M>) -> (r: Vec<M>)
    ensures
        r == first_messages(load, loaded, given),
{
    match loaded {
        Some(messages) if load => messages,
        _ => given,
    }
}

// ---------------------------------------------------------------------------
// Laws
// ---------------------------------------------------------------------------

/// The `stream-json` formats decide the mode whatever else is asked for, input
/// before output; without them the loop is interactive exactly at a terminal
/// and without `--print`.
pub proof fn law_wire_formats_come_first(args: Args, stdin_is_tty: bool)
    ensures
        app_mode(args, stdin_is_tty) == AppMode::StreamJsonPersistent <==> cli::names_stream_json(
            args.input_format@,
        ),
        app_mode(args, stdin_is_tty) == AppMode::StreamJsonOneShot <==> !cli::names_stream_json(
            args.input_format@,
        ) && cli::names_stream_json(args.output_format@),
        app_mode(args, stdin_is_tty) == AppMode::Interactive <==> !cli::names_stream_json(
            args.input_format@,
        ) && !cli::names_stream_json(args.output_format@) && !args.print && stdin_is_tty,
{
}

/// Every argument is either a file reference or kept for parsing, and none is
/// lost or doubled.
pub proof fn law_file_arguments_partition(args: Seq<Seq<char>>)
    ensures
        args.filter(|arg: Seq<char>| file_reference(arg)).to_multiset().add(
            args.filter(|arg: Seq<char>| !file_reference(arg)).to_multiset(),
        ) =~= args.to_multiset(),
    decreases args.len(),
{
    broadcast use vstd::seq_lib::group_to_multiset_ensures;

    reveal(Seq::filter);
    let wanted = |arg: Seq<char>| file_reference(arg);
    let other = |arg: Seq<char>| !file_reference(arg);
    if args.len() > 0 {
        let rest = args.drop_last();
        law_file_arguments_partition(rest);
        assert(args =~= rest.push(args.last()));
    } else {
        assert(args.filter(wanted) =~= args);
        assert(args.filter(other) =~= args);
    }
}

/// An excluded tool is never part of a session, `skill` among them, and with
/// the tools disabled there are none.
pub proof fn law_excluded_tools_stay_out(args: Args, around: Surroundings, name: Seq<char>)
    ensures
        text::views(args.exclude_tools@).contains(name) ==> !session_tools(args, around).contains(
            name,
        ),
        args.no_tools || args.no_builtin_tools ==> session_tools(args, around).len() == 0,
{
    let keep = |name: Seq<char>| !text::views(args.exclude_tools@).contains(name);
    let coding = text::views(around.coding@);
    let selected = text::views(around.selected@);
    let base = if args.tools@.len() == 0 {
        coding
    } else {
        selected
    };
    if text::views(args.exclude_tools@).contains(name) && session_tools(args, around).contains(
        name,
    ) {
        let enabled = enabled_tools(args, coding, selected);
        let k = session_tools(args, around).index_of(name);
        if k < enabled.len() {
            assert(enabled[k] == name);
            base.lemma_filter_pred(keep, k);
        }
    }
}

/// Every tool of a session comes from the chosen base set, but for `skill`,
/// which comes where skills are offered.
pub proof fn law_tools_come_from_the_base_set(args: Args, around: Surroundings, name: Seq<char>)
    requires
        session_tools(args, around).contains(name),
    ensures
        (name == "skill"@ && skills_offered(args, around.any_skills)) || (if args.tools@.len()
            == 0 {
            text::views(around.coding@)
        } else {
            text::views(around.selected@)
        }).contains(name),
{
    let keep = |name: Seq<char>| !text::views(args.exclude_tools@).contains(name);
    let coding = text::views(around.coding@);
    let selected = text::views(around.selected@);
    let base = if args.tools@.len() == 0 {
        coding
    } else {
        selected
    };
    let enabled = enabled_tools(args, coding, selected);
    let k = session_tools(args, around).index_of(name);
    if k < enabled.len() {
        assert(enabled[k] == name);
        assert(base.filter(keep).contains(name));
        base.lemma_filter_contains_rev(keep, name);
    }
}

/// `--tools` is an allowlist: as long as what it selects is among the names that
/// it gives, a session has no tool that it does not name, `skill` included.
pub proof fn law_tools_flag_is_an_allowlist(args: Args, around: Surroundings, name: Seq<char>)
    requires
        args.tools@.len() > 0,
        forall|tool: Seq<char>| #[trigger]
            text::views(around.selected@).contains(tool) ==> text::views(args.tools@).contains(
                tool,
            ),
        session_tools(args, around).contains(name),
    ensures
        text::views(args.tools@).contains(name),
{
    law_tools_come_from_the_base_set(args, around, name);
}

/// A named session is kept in the file of its name, unless the command line
/// asks for another place.
pub proof fn law_named_session_keeps_its_file(args: Args, target: SessionTarget)
    requires
        session_target(args, target),
        !args.no_session,
        args.session is None,
        cli::named_session(args) is Some,
    ensures
        target matches SessionTarget::InProject(file) && file@ == session_file_name(
            cli::named_session(args)->0,
        ),
        resume_wanted(args),
{
}

/// A planned session starts with the transcript on disk exactly where one is
/// wanted, kept, there and readable. In every other case it starts with the
/// messages given: a transcript that is not wanted is ignored.
pub proof fn law_only_wanted_transcripts_are_used<M>(
    args: Args,
    around: Surroundings,
    plan: SessionPlan,
    loaded: Option<Vec<M>>,
    given: Vec<M>,
)
    requires
        planned(args, around, plan),
    ensures
        first_messages(plan.load, loaded, given) == (if (args.continue_session || args.resume
            is Some || args.session is Some || args.session_id is Some) && !args.no_session
            && around.session_exists && loaded is Some {
            loaded->0
        } else {
            given
        }),
{
}

/// A session file that does not exist is no failure, unless `--session` names
/// it: the session starts afresh.
pub proof fn law_only_a_named_file_must_exist(args: Args)
    ensures
        session_missing(args, false) <==> args.session is Some && !args.no_session,
        !session_missing(args, true),
        !transcript_loaded(args, false),
{
}

/// Without `--system-prompt`, the system prompt is assembled with extra text
/// exactly when some text is appended. A single text is all of it, and of several
/// each is part of it, a blank line between each two. With `--system-prompt` that
/// text is the system prompt.
pub proof fn law_appended_texts_are_kept(args: Args, plan: PromptPlan)
    requires
        prompt_plan(args, plan),
    ensures
        args.system_prompt matches Some(prompt) ==> (plan matches PromptPlan::Replace(s) && s@
            == prompt@),
        args.system_prompt is None ==> plan is Assemble,
        args.system_prompt is None ==> (plan->extra is Some <==> args.append_system_prompt@.len()
            > 0),
        args.system_prompt is None && args.append_system_prompt@.len() == 1 ==> plan->extra->0@
            == args.append_system_prompt@[0]@,
        args.system_prompt is None && args.append_system_prompt@.len() == 2 ==> plan->extra->0@
            == args.append_system_prompt@[0]@ + "\n\n"@ + args.append_system_prompt@[1]@,
        args.system_prompt is None ==> forall|i: int|
            0 <= i < args.append_system_prompt@.len() ==> text::holds(
                plan->extra->0@,
                #[trigger] args.append_system_prompt@[i]@,
            ),
{
    let texts = text::views(args.append_system_prompt@);
    if args.system_prompt is None {
        assert forall|i: int| 0 <= i < args.append_system_prompt@.len() implies text::holds(
            plan->extra->0@,
            #[trigger] args.append_system_prompt@[i]@,
        ) by {
            assert(texts[i] == args.append_system_prompt@[i]@);
            text::law_joined_text_holds_every_part(texts, "\n\n"@, i);
        }
        if texts.len() == 2 {
            text::law_joining_keeps_the_parts(texts[0], Seq::empty(), Seq::empty(), "\n\n"@);
            assert(texts.drop_last() =~= seq![texts[0]]);
        }
    }
}

/// The first prompt holds the positional prompts, unless they are blank, and the
/// contents of every file under its number. There is none exactly where both are
/// missing. Prompts alone are sent as they are, a blank line between each two.
pub proof fn law_the_first_prompt_holds_everything(prompts: Seq<Seq<char>>, files: Seq<Seq<char>>)
    ensures
        initial_text(prompts, files) is None <==> text::blank(text::join(prompts, "\n\n"@))
            && files.len() == 0,
        files.len() == 0 && !text::blank(text::join(prompts, "\n\n"@)) ==> initial_text(
            prompts,
            files,
        ) == Some(text::join(prompts, "\n\n"@)),
        !text::blank(text::join(prompts, "\n\n"@)) ==> text::join(
            prompts,
            "\n\n"@,
        ).is_prefix_of(initial_text(prompts, files)->0),
        forall|i: int|
            0 <= i < files.len() ==> text::holds(
                initial_text(prompts, files)->0,
                "@file["@ + text::decimal(i as nat) + "]\n"@ + #[trigger] files[i],
            ),
{
    let combined = text::join(prompts, "\n\n"@);
    let parts = initial_parts(prompts, files);
    let sections = file_sections(files);
    let whole = text::join(parts, "\n\n"@);
    text::law_joining_keeps_the_parts(combined, seq![combined], sections, "\n\n"@);
    if files.len() == 0 {
        assert(seq![combined] + sections =~= seq![combined]);
    }
    if !text::blank(combined) {
        assert(whole.take(combined.len() as int) =~= combined);
    }
    assert forall|i: int| 0 <= i < files.len() implies text::holds(
        whole,
        "@file["@ + text::decimal(i as nat) + "]\n"@ + #[trigger] files[i],
    ) by {
        let k = if text::blank(combined) {
            i
        } else {
            i + 1
        };
        assert(parts[k] == sections[i]);
        text::law_joined_text_holds_every_part(parts, "\n\n"@, k);
    }
}

/// Piped input is sent character for character, unless it is blank.
pub proof fn law_piped_input_is_sent_as_it_is(content: Seq<char>)
    ensures
        text::blank(content) ==> piped_text(content) is None,
        !text::blank(content) ==> piped_text(content) == Some(content),
{
}

/// A prompt message carries the text that it was made of.
pub proof fn law_prompts_carry_their_text(message: Option<Message>, prompt: Option<Seq<char>>)
    requires
        prompts_with(message, prompt),
    ensures
        message is Some <==> prompt is Some,
        prompt is Some ==> (message->0 matches Message::User(u) && u.content@ == prompt->0),
{
}

/// The command line comes before standard input, which is read only where it is
/// piped.
pub proof fn law_the_command_line_comes_first(stdin_is_tty: bool)
    ensures
        source_of_prompt(true, stdin_is_tty) == PromptSource::CommandLine,
        source_of_prompt(false, false) == PromptSource::Stdin,
        source_of_prompt(false, true) == PromptSource::Missing,
{
}

/// In print mode the output is JSON exactly if `--mode json` is given; a piped
/// process prints even without `--print`.
pub proof fn law_print_runs_follow_the_mode(args: Args, stdin_is_tty: bool)
    requires
        !cli::names_stream_json(args.input_format@),
        !cli::names_stream_json(args.output_format@),
        args.print || !stdin_is_tty,
    ensures
        app_mode(args, stdin_is_tty) == AppMode::Print(OutputMode::Json) <==> args.mode@
            == "json"@,
        app_mode(args, stdin_is_tty) == AppMode::Print(OutputMode::Text) <==> args.mode@
            != "json"@,
{
    reveal_strlit("json");
    reveal_strlit("text");
    assert("json"@[0] == 'j');
    assert("text"@[0] == 't');
}

/// An argument is a file reference exactly if it is an `@` and a name that does
/// not start with another.
pub proof fn law_file_references_start_with_one_at(name: Seq<char>)
    ensures
        name.len() > 0 && name[0] != '@' ==> file_reference(seq!['@'] + name),
        name.len() > 0 && name[0] == '@' ==> !file_reference(seq!['@'] + name),
        name.len() > 0 && name[0] != '@' ==> !file_reference(name),
        !file_reference(seq!['@']),
{
}

/// The key on the command line comes before the environment, where an empty
/// variable counts as none.
pub proof fn law_the_command_line_has_the_key(args: Args, value: String)
    ensures
        args.api_key matches Some(key) ==> api_key(args, Some(value)) == Some(key@) && api_key(
            args,
            None,
        ) == Some(key@),
        args.api_key is None && value@.len() > 0 ==> api_key(args, Some(value)) == Some(value@),
        args.api_key is None && value@.len() == 0 ==> api_key(args, Some(value)) is None,
        args.api_key is None ==> api_key(args, None) is None,
        value@.len() > 0 ==> set_variable(Some(value)) == Some(value@),
        value@.len() == 0 ==> set_variable(Some(value)) is None,
        set_variable(None) is None,
{
}

/// The enabled tools are those of the base set that are not excluded, in their
/// order: tool by tool, each stays or goes for itself.
pub proof fn law_tools_stay_unless_excluded(
    args: Args,
    tool: Seq<char>,
    a: Seq<Seq<char>>,
    b: Seq<Seq<char>>,
)
    requires
        !args.no_tools,
        !args.no_builtin_tools,
    ensures
        args.tools@.len() == 0 ==> enabled_tools(args, a + b, b) == enabled_tools(args, a, b)
            + enabled_tools(args, b, b),
        args.tools@.len() == 0 && text::views(args.exclude_tools@).contains(tool) ==> enabled_tools(
            args,
            seq![tool],
            b,
        ).len() == 0,
        args.tools@.len() == 0 && !text::views(args.exclude_tools@).contains(tool)
            ==> enabled_tools(args, seq![tool], b) == seq![tool],
        args.tools@.len() > 0 ==> enabled_tools(args, a, b) == enabled_tools(args, b, b),
        args.tools@.len() > 0 && !text::views(args.exclude_tools@).contains(tool) ==> enabled_tools(
            args,
            a,
            seq![tool],
        ) == seq![tool],
        args.exclude_tools@.len() == 0 && args.tools@.len() == 0 ==> enabled_tools(args, a, b) == a,
        args.exclude_tools@.len() == 0 && args.tools@.len() > 0 ==> enabled_tools(args, a, b) == b,
{
    let keep = |name: Seq<char>| !text::views(args.exclude_tools@).contains(name);
    Seq::filter_distributes_over_add(a, b, keep);
    reveal_with_fuel(Seq::filter, 2);
    assert(seq![tool].drop_last() =~= Seq::empty());
    assert(Seq::<Seq<char>>::empty().filter(keep) =~= Seq::empty());
    if keep(tool) {
        assert(seq![tool].filter(keep) =~= seq![tool]);
    } else {
        assert(seq![tool].filter(keep) =~= Seq::empty());
    }
    if args.exclude_tools@.len() == 0 {
        assert forall|name: Seq<char>| #[trigger] keep(name) by {
            assert(text::views(args.exclude_tools@).len() == 0);
        }
        lemma_filter_keeps_all(a, keep);
        lemma_filter_keeps_all(b, keep);
    }
}

proof fn lemma_filter_keeps_all(names: Seq<Seq<char>>, keep: spec_fn(Seq<char>) -> bool)
    requires
        forall|name: Seq<char>| #[trigger] keep(name),
    ensures
        names.filter(keep) == names,
    decreases names.len(),
{
    reveal(Seq::filter);
    if names.len() > 0 {
        lemma_filter_keeps_all(names.drop_last(), keep);
        assert(keep(names.last()));
        assert(names.drop_last().push(names.last()) =~= names);
    } else {
        assert(names.filter(keep) =~= names);
    }
}

/// The pattern of a model is what the command line names: provider and model
/// around a slash, or either alone. Where it names neither, the first model is
/// taken.
pub proof fn law_patterns_name_what_is_asked(args: Args, registry: Seq<Seq<char>>)
    ensures
        args.provider is Some && args.model is Some ==> model_pattern_of(args, registry)
            == args.provider->0@ + "/"@ + args.model->0@,
        args.provider is Some && args.model is None ==> model_pattern_of(args, registry)
            == args.provider->0@,
        args.provider is None && args.model is Some ==> model_pattern_of(args, registry)
            == args.model->0@,
        args.provider is None && args.model is None ==> model_pattern_of(args, registry)
            == registry[0],
{
}

/// A model that was asked for is either the one that matches or an error that
/// names the pattern and every model; without being asked, a run always gets one.
pub proof fn law_asked_models_are_never_replaced(
    args: Args,
    registry: Seq<Seq<char>>,
    resolves: bool,
    chosen: Result<ModelChoice, SetupError>,
)
    requires
        model_chosen(args, registry, resolves, chosen),
    ensures
        resolves ==> chosen == Ok::<ModelChoice, SetupError>(ModelChoice::Resolved),
        !resolves && (args.model is Some || args.provider is Some) ==> chosen is Err
            && error_message(chosen->Err_0) == "Could not resolve model '"@ + model_pattern_of(
            args,
            registry,
        ) + "'. Available: "@ + text::join(registry, ", "@),
        !resolves && args.model is None && args.provider is None ==> chosen == Ok::<
            ModelChoice,
            SetupError,
        >(ModelChoice::First),
{
}

/// The thinking level is the one that the name selects, or medium.
pub proof fn law_thinking_defaults_to_medium(args: Args, level: ThinkingLevel)
    ensures
        args.thinking is Some ==> thinking_level(args, Some(level)) == level,
        args.thinking is Some ==> thinking_level(args, None) == ThinkingLevel::Medium,
        args.thinking is None ==> thinking_level(args, Some(level)) == ThinkingLevel::Medium,
{
}

/// A session is refused for the first thing that is wrong: an asked model that is
/// unknown, then missing credentials, then a named file that does not exist.
/// Where nothing is, it is planned.
pub proof fn law_sessions_are_refused_in_order(
    args: Args,
    around: Surroundings,
    r: Result<SessionPlan, SetupError>,
)
    requires
        session_planned(args, around, r),
    ensures
        ({
            let unknown = !around.resolves && (args.model is Some || args.provider is Some);
            let known_key = api_key(args, around.env_api_key) is Some || set_variable(
                around.env_auth_token,
            ) is Some;
            let missing = !args.no_session && args.session is Some && !around.session_exists;
            &&& unknown <==> (r matches Err(SetupError::UnknownModel { .. }))
            &&& !unknown && !known_key <==> (r matches Err(SetupError::NoCredentials))
            &&& !unknown && known_key && missing <==> (r matches Err(
                SetupError::SessionNotFound { .. },
            ))
            &&& !unknown && known_key && !missing <==> r is Ok
        }),
        r matches Err(SetupError::SessionNotFound { path }) ==> path@ == around.session_path@,
{
}

/// A plan carries what the command line and the environment give: model, key,
/// token, limits and caching.
pub proof fn law_plans_carry_the_settings(args: Args, around: Surroundings, plan: SessionPlan)
    requires
        planned(args, around, plan),
    ensures
        plan.model == ModelChoice::Resolved <==> around.resolves,
        text::opt_view(plan.api_key) == api_key(args, around.env_api_key),
        text::opt_view(plan.auth_token) == set_variable(around.env_auth_token),
        plan.max_tokens == args.max_tokens,
        plan.cache_control <==> !args.no_cache,
        plan.thinking == thinking_level(args, around.thinking),
        text::views(plan.tools@) == session_tools(args, around),
        plan.skills <==> skills_offered(args, around.any_skills),
        prompt_plan(args, plan.prompt),
        session_target(args, plan.target),
{
}

/// The `skill` tool is offered exactly where there are skills and nothing keeps
/// it out, and then it is the last tool of the session.
pub proof fn law_skills_come_last(args: Args, around: Surroundings)
    ensures
        skills_offered(args, around.any_skills) <==> around.any_skills && !args.no_tools
            && !args.no_builtin_tools && !text::views(args.exclude_tools@).contains("skill"@) && (
        args.tools@.len() == 0 || text::views(args.tools@).contains("skill"@)),
        skills_offered(args, around.any_skills) ==> session_tools(args, around).len() > 0
            && session_tools(args, around).last() == "skill"@ && session_tools(
            args,
            around,
        ).drop_last() == enabled_tools(
            args,
            text::views(around.coding@),
            text::views(around.selected@),
        ),
        !skills_offered(args, around.any_skills) ==> session_tools(args, around) == enabled_tools(
            args,
            text::views(around.coding@),
            text::views(around.selected@),
        ),
{
    let base = enabled_tools(args, text::views(around.coding@), text::views(around.selected@));
    assert(base.push("skill"@).drop_last() =~= base);
}

/// A session is kept nowhere with `--no-session`, else where `--session` points,
/// else in the file of the session that is named, else in the default file.
pub proof fn law_sessions_are_kept_where_asked(args: Args, target: SessionTarget)
    requires
        session_target(args, target),
    ensures
        args.no_session <==> target is Ephemeral,
        !args.no_session && args.session is Some ==> (target matches SessionTarget::Given(sess)
            && sess@ == args.session->0@),
        !args.no_session && args.session is None && args.session_id is Some ==> (
        target matches SessionTarget::InProject(file) && file@ == args.session_id->0@ + ".jsonl"@),
        !args.no_session && args.session is None && args.session_id is None && args.resume is Some
            && args.resume->0@.len() > 0 ==> (target matches SessionTarget::InProject(file)
            && file@ == args.resume->0@ + ".jsonl"@),
        !args.no_session && args.session is None && args.session_id is None && (args.resume is None
            || args.resume->0@.len() == 0) ==> target is Default,
{
}

/// What is printed for an error names what is missing.
pub proof fn law_setup_errors_say_why(path: String, pattern: String, available: Vec<String>)
    ensures
        error_message(SetupError::SessionNotFound { path }) == "Session file not found: "@ + path@,
        error_message(SetupError::NoCredentials)
            == "No Anthropic credentials found. Set the ANTHROPIC_API_KEY environment variable (or ANTHROPIC_AUTH_TOKEN for a Bearer token), or pass --api-key <key>."@,
        error_message(SetupError::UnknownModel { pattern, available })
            == "Could not resolve model '"@ + pattern@ + "'. Available: "@ + text::join(
            text::views(available@),
            ", "@,
        ),
{
}

/// The id that is reported is the one that the command line names, under either
/// flag, and only without one a fresh one. A session that is no absolute path
/// means the file of that name.
pub proof fn law_named_ids_are_reported(args: Args, fresh: Seq<char>, sess: Seq<char>)
    ensures
        args.session_id matches Some(id) ==> reported_id(args, fresh) == id@,
        args.session_id is None && args.resume is Some && args.resume->0@.len() > 0 ==> reported_id(
            args,
            fresh,
        ) == args.resume->0@,
        args.session_id is None && (args.resume is None || args.resume->0@.len() == 0)
            ==> reported_id(args, fresh) == fresh,
        project_file(sess, true) is None,
        project_file(sess, false) == Some(sess + ".jsonl"@),
{
}

/// Arguments are parted one by one and keep their order: a file reference goes to
/// the files as it is, any other argument stays with the rest, and the path of a
/// reference is all of it but the `@`.
pub proof fn law_arguments_are_parted_in_order(
    a: Seq<Seq<char>>,
    b: Seq<Seq<char>>,
    path: Seq<char>,
    other: Seq<char>,
)
    requires
        path.len() > 0,
        path[0] != '@',
        other.len() == 0 || other[0] != '@' || other.len() == 1 || other[1] == '@',
    ensures
        file_args(a + b) == file_args(a) + file_args(b),
        other_args(a + b) == other_args(a) + other_args(b),
        file_args(seq![seq!['@'] + path]) == seq![seq!['@'] + path],
        other_args(seq![seq!['@'] + path]).len() == 0,
        file_args(seq![other]).len() == 0,
        other_args(seq![other]) == seq![other],
        path_named(seq!['@'] + path) == path,
{
    let wanted = |arg: Seq<char>| file_reference(arg);
    let rest = |arg: Seq<char>| !file_reference(arg);
    let reference = seq!['@'] + path;
    Seq::filter_distributes_over_add(a, b, wanted);
    Seq::filter_distributes_over_add(a, b, rest);
    reveal_with_fuel(Seq::filter, 2);
    assert(seq![reference].drop_last() =~= Seq::empty());
    assert(seq![other].drop_last() =~= Seq::empty());
    assert(file_reference(reference));
    assert(!file_reference(other));
    assert(seq![reference].filter(wanted) =~= seq![reference]);
    assert(seq![reference].filter(rest) =~= Seq::empty());
    assert(seq![other].filter(wanted) =~= Seq::empty());
    assert(seq![other].filter(rest) =~= seq![other]);
    assert(reference.skip(1) =~= path);
}

} // verus!
