//! The interactive loop: what a line of input asks for, the slash commands and
//! the texts around a turn.

use vstd::prelude::*;

use crate::compat::claude;
use crate::render;
use crate::text;
use crate::types::Usage;

verus! {

// ---------------------------------------------------------------------------
// Input
// ---------------------------------------------------------------------------

/// What the line editor reports.
#[derive(Debug)]
pub enum ReplEvent {
    /// A line was entered.
    Line(String),
    /// Ctrl-C at the prompt.
    Interrupted,
    /// The input has ended.
    Eof,
    /// The input failed.
    Failed(String),
}

/// What the loop does next.
#[derive(Debug)]
pub enum ReplAction {
    /// Read the next line.
    Wait,
    /// Run a slash command.
    Slash(String),
    /// Send a prompt.
    Prompt(String),
    /// Leave.
    Quit,
    /// Print a failure and leave.
    Report(String),
}

/// Whether an action is the right answer to an event: a line is trimmed, blank
/// ones are passed over, those that start with a slash are commands and all
/// others prompts; Ctrl-C is ignored; the end of input and failures leave.
pub open spec fn answers(ev: ReplEvent, action: ReplAction, colors: bool) -> bool {
    match ev {
        ReplEvent::Line(line) => {
            let t = text::trimmed(line@);
            if t.len() == 0 {
                action is Wait
            } else if t[0] == '/' {
                action matches ReplAction::Slash(input) && input@ == t
            } else {
                action matches ReplAction::Prompt(prompt) && prompt@ == t
            }
        },
        ReplEvent::Interrupted => action is Wait,
        ReplEvent::Eof => action is Quit,
        ReplEvent::Failed(error) => action matches ReplAction::Report(line) && line@
            == render::styled("31"@, "input error: "@ + error@, colors),
    }
}

/// The prompt in front of the input.
pub fn input_prompt(colors: bool) -> (r: String)
    ensures
        r@ == render::styled("2"@, "❯"@, colors) + " "@,
{
    let mut s = render::dim("❯", colors);
    s.append(" ");
    s
}

/// Decides what the loop does next.
pub fn repl_step(ev: &ReplEvent, colors: bool) -> (r: ReplAction)
    ensures
        answers(*ev, r, colors),
{
    match ev {
        ReplEvent::Line(line) => {
            let trimmed = text::trim(line.as_str());
            if trimmed.is_empty() {
                ReplAction::Wait
            } else if trimmed.get_char(0) == '/' {
                ReplAction::Slash(trimmed.to_string())
            } else {
                ReplAction::Prompt(trimmed.to_string())
            }
        },
        ReplEvent::Interrupted => ReplAction::Wait,
        ReplEvent::Eof => ReplAction::Quit,
        ReplEvent::Failed(error) => {
            let mut s = "input error: ".to_string();
            s.append(error.as_str());
            ReplAction::Report(render::red(s.as_str(), colors))
        },
    }
}

// ---------------------------------------------------------------------------
// Slash commands
// ---------------------------------------------------------------------------

/// A slash command.
#[derive(Debug)]
pub enum SlashCommand {
    Exit,
    Help,
    Clear,
    /// `/model`, with the pattern, which may be empty.
    Model(String),
    /// `/thinking`, with the level, which may be empty.
    Thinking(String),
    Compact,
    Tools,
    Context,
    Cost,
    System,
    /// A slash alone.
    Nothing,
    Unknown(String),
}

/// A slash command, its words as characters.
pub enum Command {
    Exit,
    Help,
    Clear,
    Model(Seq<char>),
    Thinking(Seq<char>),
    Compact,
    Tools,
    Context,
    Cost,
    System,
    Nothing,
    Unknown(Seq<char>),
}

impl View for SlashCommand {
    type V = Command;

    open spec fn view(&self) -> Command {
        match self {
            SlashCommand::Exit => Command::Exit,
            SlashCommand::Help => Command::Help,
            SlashCommand::Clear => Command::Clear,
            SlashCommand::Model(pattern) => Command::Model(pattern@),
            SlashCommand::Thinking(level) => Command::Thinking(level@),
            SlashCommand::Compact => Command::Compact,
            SlashCommand::Tools => Command::Tools,
            SlashCommand::Context => Command::Context,
            SlashCommand::Cost => Command::Cost,
            SlashCommand::System => Command::System,
            SlashCommand::Nothing => Command::Nothing,
            SlashCommand::Unknown(name) => Command::Unknown(name@),
        }
    }
}

/// The command that words name: the first one names it, the others are its
/// arguments.
pub open spec fn command_named(words: Seq<Seq<char>>) -> Command {
    if words.len() == 0 {
        Command::Nothing
    } else {
        let name = words[0];
        if name == "exit"@ || name == "quit"@ || name == "q"@ {
            Command::Exit
        } else if name == "help"@ || name == "h"@ || name == "?"@ {
            Command::Help
        } else if name == "clear"@ {
            Command::Clear
        } else if name == "model"@ {
            Command::Model(text::join(words.skip(1), " "@))
        } else if name == "thinking"@ {
            Command::Thinking(
                if words.len() > 1 {
                    words[1]
                } else {
                    Seq::empty()
                },
            )
        } else if name == "compact"@ {
            Command::Compact
        } else if name == "tools"@ {
            Command::Tools
        } else if name == "context"@ || name == "ctx"@ {
            Command::Context
        } else if name == "cost"@ {
            Command::Cost
        } else if name == "system"@ {
            Command::System
        } else {
            Command::Unknown(name)
        }
    }
}

/// Reads a slash command.
pub fn parse_slash(input: &str) -> (r: SlashCommand)
    requires
        input@.len() > 0,
        input@[0] == '/',
    ensures
        r@ == command_named(text::words(input@.skip(1))),
{
    let n: usize = input.unicode_len();
    assert(input@.skip(1) =~= input@.subrange(1, n as int));
    let mut words = text::split_words(input.substring_char(1, n));
    let ghost all = text::views(words@);
    if words.is_empty() {
        return SlashCommand::Nothing;
    }
    let name = words.remove(0);
    assert(text::views(words@) =~= all.skip(1));
    assert(name@ == all[0]);
    let cmd = name.as_str();
    if text::same(cmd, "exit") || text::same(cmd, "quit") || text::same(cmd, "q") {
        SlashCommand::Exit
    } else if text::same(cmd, "help") || text::same(cmd, "h") || text::same(cmd, "?") {
        SlashCommand::Help
    } else if text::same(cmd, "clear") {
        SlashCommand::Clear
    } else if text::same(cmd, "model") {
        SlashCommand::Model(text::join_strings(&words, " "))
    } else if text::same(cmd, "thinking") {
        if words.is_empty() {
            SlashCommand::Thinking(String::new())
        } else {
            assert(words@[0]@ == text::views(words@)[0]);
            SlashCommand::Thinking(words[0].clone())
        }
    } else if text::same(cmd, "compact") {
        SlashCommand::Compact
    } else if text::same(cmd, "tools") {
        SlashCommand::Tools
    } else if text::same(cmd, "context") || text::same(cmd, "ctx") {
        SlashCommand::Context
    } else if text::same(cmd, "cost") {
        SlashCommand::Cost
    } else if text::same(cmd, "system") {
        SlashCommand::System
    } else {
        SlashCommand::Unknown(name)
    }
}

/// What the commands show of a session.
#[derive(Debug)]
pub struct SessionView {
    pub model_id: String,
    pub tool_names: Vec<String>,
    pub system_prompt: String,
    pub estimated_tokens: u64,
    pub context_window: u64,
    /// Share of the context window in use.
    pub context_percent: u64,
    /// Tokens used so far.
    pub total_usage: Usage,
    /// Dollars spent so far, formatted.
    pub cost: String,
}

/// What a command does to the session.
#[derive(Debug)]
pub enum SlashAction {
    /// Leave the loop.
    Exit,
    /// Nothing.
    Stay,
    /// Drop the conversation.
    ClearMessages,
    /// Look up a model and switch to it.
    SwitchModel(String),
    /// Look up a thinking level and set it.
    SetThinking(String),
    /// Compact the conversation and save it.
    Compact,
}

/// The commands and what they do.
pub open spec fn help_rows() -> Seq<(Seq<char>, Seq<char>)> {
    seq![
        ("/help"@, "show this help"@),
        ("/exit"@, "quit the session"@),
        ("/clear"@, "clear the conversation"@),
        ("/model <id>"@, "switch model"@),
        ("/thinking <level>"@, "off|minimal|low|medium|high|xhigh"@),
        ("/compact"@, "summarize old messages to fit the context"@),
        ("/tools"@, "list available tools"@),
        ("/context"@, "show token usage"@),
        ("/cost"@, "show cumulative cost"@),
        ("/system"@, "show the system prompt"@),
    ]
}

/// A row of the help.
pub open spec fn help_row(row: (Seq<char>, Seq<char>), colors: bool) -> Seq<char> {
    "  "@ + render::styled("33"@, row.0, colors) + "   "@ + render::styled("2"@, row.1, colors)
}

/// The lines of the help.
pub open spec fn help_lines(colors: bool) -> Seq<Seq<char>> {
    seq![render::styled("34"@, "Slash commands:"@, colors)] + Seq::new(
        help_rows().len(),
        |i: int| help_row(help_rows()[i], colors),
    )
}

/// How much of the system prompt is shown.
pub const PREVIEW_CHARS: usize = 600;

/// The lines that show the system prompt.
pub open spec fn preview_lines(prompt: Seq<char>, colors: bool) -> Seq<Seq<char>> {
    if prompt.len() > PREVIEW_CHARS {
        seq![
            prompt.take(PREVIEW_CHARS as int),
            render::styled("2"@, "…(truncated)"@, colors),
        ]
    } else {
        seq![prompt]
    }
}

/// The line that lists the tools.
pub open spec fn tools_line(names: Seq<Seq<char>>, colors: bool) -> Seq<char> {
    render::styled("2"@, "tools"@, colors) + " "@ + text::join(names, ", "@)
}

/// The line that shows the context.
pub open spec fn context_line(view: SessionView, colors: bool) -> Seq<char> {
    render::styled("2"@, "context"@, colors) + " ~"@ + text::decimal(view.estimated_tokens as nat)
        + " tokens / "@ + text::decimal(view.context_window as nat) + " ("@ + text::decimal(
        view.context_percent as nat,
    ) + "%)"@
}

/// The line that shows what was used.
pub open spec fn cost_line(view: SessionView, colors: bool) -> Seq<char> {
    render::styled("2"@, "usage"@, colors) + " in="@ + text::decimal(view.total_usage.tokens().input)
        + " out="@ + text::decimal(view.total_usage.tokens().output) + " cache_read="@ + text::decimal(
        view.total_usage.tokens().cache_read,
    ) + " cache_write="@ + text::decimal(view.total_usage.tokens().cache_write) + " cost=$"@ + view.cost@
}

/// What a command prints at once.
pub open spec fn command_lines(command: Command, view: SessionView, colors: bool) -> Seq<Seq<char>> {
    match command {
        Command::Help => help_lines(colors),
        Command::Clear => seq![render::styled("32"@, "Conversation cleared."@, colors)],
        Command::Model(pattern) => if pattern.len() == 0 {
            seq![render::styled("2"@, "current model:"@, colors) + " "@ + view.model_id@]
        } else {
            Seq::empty()
        },
        Command::Tools => seq![tools_line(text::views(view.tool_names@), colors)],
        Command::Context => seq![context_line(view, colors)],
        Command::Cost => seq![cost_line(view, colors)],
        Command::System => preview_lines(view.system_prompt@, colors),
        Command::Unknown(name) => seq![
            render::styled("31"@, "Unknown command: /"@ + name + " (try /help)"@, colors),
        ],
        Command::Exit => Seq::empty(),
        Command::Thinking(_) => Seq::empty(),
        Command::Compact => Seq::empty(),
        Command::Nothing => Seq::empty(),
    }
}

/// Whether an action is what a command does.
pub open spec fn acts_on(command: Command, action: SlashAction) -> bool {
    match command {
        Command::Exit => action is Exit,
        Command::Clear => action is ClearMessages,
        Command::Model(pattern) => if pattern.len() == 0 {
            action is Stay
        } else {
            action matches SlashAction::SwitchModel(p) && p@ == pattern
        },
        Command::Thinking(name) => action matches SlashAction::SetThinking(n) && n@ == name,
        Command::Compact => action is Compact,
        _ => action is Stay,
    }
}

fn push_help_row(out: &mut Vec<String>, command: &str, about: &str, colors: bool)
    ensures
        text::views(final(out)@) == text::views(old(out)@).push(
            help_row((command@, about@), colors),
        ),
{
    broadcast use text::lemma_views_push;

    let mut line = "  ".to_string();
    line.append(render::yellow(command, colors).as_str());
    line.append("   ");
    line.append(render::dim(about, colors).as_str());
    out.push(line);
}

fn help(colors: bool) -> (r: Vec<String>)
    ensures
        text::views(r@) == help_lines(colors),
{
    broadcast use text::lemma_views_push;

    let mut out: Vec<String> = Vec::new();
    assert(text::views(out@) =~= Seq::empty());
    out.push(render::blue("Slash commands:", colors));
    push_help_row(&mut out, "/help", "show this help", colors);
    push_help_row(&mut out, "/exit", "quit the session", colors);
    push_help_row(&mut out, "/clear", "clear the conversation", colors);
    push_help_row(&mut out, "/model <id>", "switch model", colors);
    push_help_row(&mut out, "/thinking <level>", "off|minimal|low|medium|high|xhigh", colors);
    push_help_row(&mut out, "/compact", "summarize old messages to fit the context", colors);
    push_help_row(&mut out, "/tools", "list available tools", colors);
    push_help_row(&mut out, "/context", "show token usage", colors);
    push_help_row(&mut out, "/cost", "show cumulative cost", colors);
    push_help_row(&mut out, "/system", "show the system prompt", colors);
    assert(text::views(out@) =~= help_lines(colors));
    out
}

fn labelled(label: &str, rest: &str, colors: bool) -> (r: String)
    ensures
        r@ == render::styled("2"@, label@, colors) + " "@ + rest@,
{
    let mut s = render::dim(label, colors);
    s.append(" ");
    s.append(rest);
    s
}

fn context_string(view: &SessionView, colors: bool) -> (r: String)
    ensures
        r@ == context_line(*view, colors),
{
    let mut s = render::dim("context", colors);
    s.append(" ~");
    s.append(text::decimal_string(view.estimated_tokens).as_str());
    s.append(" tokens / ");
    s.append(text::decimal_string(view.context_window).as_str());
    s.append(" (");
    s.append(text::decimal_string(view.context_percent).as_str());
    s.append("%)");
    s
}

fn cost_string(view: &SessionView, colors: bool) -> (r: String)
    ensures
        r@ == cost_line(*view, colors),
{
    let mut s = render::dim("usage", colors);
    s.append(" in=");
    s.append(text::decimal_string(view.total_usage.input).as_str());
    s.append(" out=");
    s.append(text::decimal_string(view.total_usage.output).as_str());
    s.append(" cache_read=");
    s.append(text::decimal_string(view.total_usage.cache_read).as_str());
    s.append(" cache_write=");
    s.append(text::decimal_string(view.total_usage.cache_write).as_str());
    s.append(" cost=$");
    s.append(view.cost.as_str());
    s
}

/// Runs a slash command: the lines to print, and what it does to the session.
/// Looking up a model or a thinking level and compacting print their lines once
/// they are done.
pub fn handle_slash(command: &SlashCommand, view: &SessionView, colors: bool) -> (r: (
    Vec<String>,
    SlashAction,
))
    ensures
        text::views(r.0@) == command_lines(command@, *view, colors),
        acts_on(command@, r.1),
{
    broadcast use text::lemma_views_push;

    let mut out: Vec<String> = Vec::new();
    assert(text::views(out@) =~= Seq::empty());
    let action = match command {
        SlashCommand::Exit => SlashAction::Exit,
        SlashCommand::Help => {
            out = help(colors);
            SlashAction::Stay
        },
        SlashCommand::Clear => {
            out.push(render::green("Conversation cleared.", colors));
            SlashAction::ClearMessages
        },
        SlashCommand::Model(pattern) => {
            if pattern.as_str().is_empty() {
                out.push(labelled("current model:", view.model_id.as_str(), colors));
                SlashAction::Stay
            } else {
                SlashAction::SwitchModel(pattern.clone())
            }
        },
        SlashCommand::Thinking(name) => SlashAction::SetThinking(name.clone()),
        SlashCommand::Compact => SlashAction::Compact,
        SlashCommand::Tools => {
            out.push(
                labelled("tools", text::join_strings(&view.tool_names, ", ").as_str(), colors),
            );
            SlashAction::Stay
        },
        SlashCommand::Context => {
            out.push(context_string(view, colors));
            SlashAction::Stay
        },
        SlashCommand::Cost => {
            out.push(cost_string(view, colors));
            SlashAction::Stay
        },
        SlashCommand::System => {
            let n: usize = view.system_prompt.as_str().unicode_len();
            if n > PREVIEW_CHARS {
                let preview = view.system_prompt.as_str().substring_char(0, PREVIEW_CHARS);
                assert(preview@ =~= view.system_prompt@.take(PREVIEW_CHARS as int));
                out.push(preview.to_string());
                out.push(render::dim("…(truncated)", colors));
            } else {
                out.push(view.system_prompt.clone());
            }
            SlashAction::Stay
        },
        SlashCommand::Nothing => SlashAction::Stay,
        SlashCommand::Unknown(name) => {
            let mut s = "Unknown command: /".to_string();
            s.append(name.as_str());
            s.append(" (try /help)");
            out.push(render::red(s.as_str(), colors));
            SlashAction::Stay
        },
    };
    assert(text::views(out@) =~= command_lines(command@, *view, colors));
    (out, action)
}

/// The line after a model was switched.
pub open spec fn model_switched(old_id: Seq<char>, new_id: Seq<char>, colors: bool) -> Seq<char> {
    render::styled("2"@, "model"@, colors) + " "@ + old_id + " → "@ + render::styled(
        "32"@,
        new_id,
        colors,
    )
}

/// The line after no model matched.
pub open spec fn model_unknown(available: Seq<Seq<char>>, colors: bool) -> Seq<char> {
    render::styled("31"@, "Unknown model. Available: "@ + text::join(available, ", "@), colors)
}

fn model_switched_line(old_id: &str, new_id: &str, colors: bool) -> (r: String)
    ensures
        r@ == model_switched(old_id@, new_id@, colors),
{
    let mut s = render::dim("model", colors);
    s.append(" ");
    s.append(old_id);
    s.append(" → ");
    s.append(render::green(new_id, colors).as_str());
    s
}

fn unknown_model_line(available: &Vec<String>, colors: bool) -> (r: String)
    ensures
        r@ == model_unknown(text::views(available@), colors),
{
    let mut s = "Unknown model. Available: ".to_string();
    s.append(text::join_strings(available, ", ").as_str());
    render::red(s.as_str(), colors)
}

/// Whether a lookup of a model is answered as it should be: the line, and whether
/// to switch.
pub open spec fn model_answered(
    old_id: Seq<char>,
    found: Option<Seq<char>>,
    available: Seq<Seq<char>>,
    colors: bool,
    line: Seq<char>,
    switch: bool,
) -> bool {
    match found {
        Some(id) => switch && line == model_switched(old_id, id, colors),
        None => !switch && line == model_unknown(available, colors),
    }
}

/// Answers a lookup of a model: the line to print, and whether to switch.
/// `found` is the id of the model that matched, `available` names all of them.
pub fn model_answer(
    old_id: &str,
    found: &Option<String>,
    available: &Vec<String>,
    colors: bool,
) -> (r: (String, bool))
    ensures
        r.1 == (found is Some),
        r.0@ == (match *found {
            Some(id) => model_switched(old_id@, id@, colors),
            None => model_unknown(text::views(available@), colors),
        }),
        model_answered(
            old_id@,
            text::opt_view(*found),
            text::views(available@),
            colors,
            r.0@,
            r.1,
        ),
{
    match found {
        Some(id) => (model_switched_line(old_id, id.as_str(), colors), true),
        None => (unknown_model_line(available, colors), false),
    }
}

/// The line after a lookup of a thinking level.
pub open spec fn thinking_line(found: Option<Seq<char>>, colors: bool) -> Seq<char> {
    match found {
        Some(label) => render::styled("2"@, "set"@, colors) + " thinking="@ + label,
        None => render::styled(
            "31"@,
            "Usage: /thinking off|minimal|low|medium|high|xhigh"@,
            colors,
        ),
    }
}

/// Answers a lookup of a thinking level: the line to print, and whether to set
/// it. `found` is the label of the level that the name selects.
pub fn thinking_answer(found: &Option<String>, colors: bool) -> (r: (String, bool))
    ensures
        r.1 == (found is Some),
        r.0@ == (match *found {
            Some(label) => render::styled("2"@, "set"@, colors) + " thinking="@ + label@,
            None => render::styled(
                "31"@,
                "Usage: /thinking off|minimal|low|medium|high|xhigh"@,
                colors,
            ),
        }),
        r.0@ == thinking_line(text::opt_view(*found), colors),
{
    match found {
        Some(label) => {
            let mut line = render::dim("set", colors);
            line.append(" thinking=");
            line.append(label.as_str());
            (line, true)
        },
        None => (render::red("Usage: /thinking off|minimal|low|medium|high|xhigh", colors), false),
    }
}

/// The line after a compaction.
pub open spec fn compacted_text(dropped: nat, colors: bool) -> Seq<char> {
    render::styled("32"@, "Compacted: dropped "@ + text::decimal(dropped) + " messages."@, colors)
}

/// The line after a compaction.
pub fn compacted_line(dropped: usize, colors: bool) -> (r: String)
    ensures
        r@ == render::styled(
            "32"@,
            "Compacted: dropped "@ + text::decimal(dropped as nat) + " messages."@,
            colors,
        ),
        r@ == compacted_text(dropped as nat, colors),
{
    let mut s = "Compacted: dropped ".to_string();
    s.append(text::decimal_string(dropped as u64).as_str());
    s.append(" messages.");
    render::green(s.as_str(), colors)
}

// ---------------------------------------------------------------------------
// Around the turns
// ---------------------------------------------------------------------------

/// The lines that open the loop.
pub open spec fn banner_lines(
    model_id: Seq<char>,
    percent: nat,
    cwd: Seq<char>,
    tools: Seq<Seq<char>>,
    colors: bool,
) -> Seq<Seq<char>> {
    seq![
        render::styled("35"@, "pixie-pi"@, colors) + " v"@ + claude::VERSION@ + "  —  "@
            + render::styled("2"@, "model"@, colors) + " "@ + render::styled("32"@, model_id, colors)
            + "  —  "@ + render::styled("2"@, "("@ + text::decimal(percent) + "%)"@, colors),
        render::styled("2"@, "cwd"@, colors) + " "@ + cwd,
        tools_line(tools, colors),
        "  "@ + render::styled("2"@, "/help for commands"@, colors) + "  "@ + render::styled(
            "2"@,
            "/model to switch"@,
            colors,
        ) + "  "@ + render::styled("2"@, "/compact to trim"@, colors) + "  "@ + render::styled(
            "2"@,
            "/exit to quit"@,
            colors,
        ),
        Seq::empty(),
    ]
}

/// Builds the lines that open the loop.
pub fn banner(
    model_id: &str,
    percent: u64,
    cwd: &str,
    tools: &Vec<String>,
    colors: bool,
) -> (r: Vec<String>)
    ensures
        text::views(r@) == banner_lines(
            model_id@,
            percent as nat,
            cwd@,
            text::views(tools@),
            colors,
        ),
{
    broadcast use text::lemma_views_push;

    let mut share = "(".to_string();
    share.append(text::decimal_string(percent).as_str());
    share.append("%)");
    let mut title = render::magenta("pixie-pi", colors);
    title.append(" v");
    title.append(claude::VERSION);
    title.append("  —  ");
    title.append(render::dim("model", colors).as_str());
    title.append(" ");
    title.append(render::green(model_id, colors).as_str());
    title.append("  —  ");
    title.append(render::dim(share.as_str(), colors).as_str());
    let mut hints = "  ".to_string();
    hints.append(render::dim("/help for commands", colors).as_str());
    hints.append("  ");
    hints.append(render::dim("/model to switch", colors).as_str());
    hints.append("  ");
    hints.append(render::dim("/compact to trim", colors).as_str());
    hints.append("  ");
    hints.append(render::dim("/exit to quit", colors).as_str());
    let mut out: Vec<String> = Vec::new();
    assert(text::views(out@) =~= Seq::empty());
    out.push(title);
    out.push(labelled("cwd", cwd, colors));
    out.push(labelled("tools", text::join_strings(tools, ", ").as_str(), colors));
    out.push(hints);
    out.push(String::new());
    assert(text::views(out@) =~= banner_lines(
        model_id@,
        percent as nat,
        cwd@,
        text::views(tools@),
        colors,
    ));
    out
}

/// The line after a turn.
pub open spec fn status_text(
    output: nat,
    input: nat,
    cost: Seq<char>,
    percent: nat,
    colors: bool,
) -> Seq<char> {
    render::styled(
        "2"@,
        "  ↳ "@ + text::decimal(output) + " out, "@ + text::decimal(input) + " in, $"@ + cost
            + ", ctx "@ + text::decimal(percent) + "%"@,
        colors,
    )
}

/// The line after a turn. `cost` is the price so far, formatted.
pub fn turn_status_line(usage: &Usage, cost: &str, percent: u64, colors: bool) -> (r: String)
    ensures
        r@ == render::styled(
            "2"@,
            "  ↳ "@ + text::decimal(usage.tokens().output) + " out, "@ + text::decimal(usage.tokens().input)
                + " in, $"@ + cost@ + ", ctx "@ + text::decimal(percent as nat) + "%"@,
            colors,
        ),
        r@ == status_text(usage.output as nat, usage.input as nat, cost@, percent as nat, colors),
{
    let mut s = "  ↳ ".to_string();
    s.append(text::decimal_string(usage.output).as_str());
    s.append(" out, ");
    s.append(text::decimal_string(usage.input).as_str());
    s.append(" in, $");
    s.append(cost);
    s.append(", ctx ");
    s.append(text::decimal_string(percent).as_str());
    s.append("%");
    render::dim(s.as_str(), colors)
}

// ---------------------------------------------------------------------------
// Laws
// ---------------------------------------------------------------------------

/// Only `/exit` and its other names leave the loop.
pub proof fn law_only_exit_leaves(words: Seq<Seq<char>>, action: SlashAction)
    requires
        acts_on(command_named(words), action),
    ensures
        action is Exit <==> words.len() > 0 && (words[0] == "exit"@ || words[0] == "quit"@
            || words[0] == "q"@),
{
}

/// A command that the loop hands on always starts with its slash, and a prompt
/// never does; neither has white space at its start.
pub proof fn law_slash_marks_commands(line: String, action: ReplAction, colors: bool)
    requires
        answers(ReplEvent::Line(line), action, colors),
    ensures
        action matches ReplAction::Slash(input) ==> input@.len() > 0 && input@[0] == '/',
        action matches ReplAction::Prompt(prompt) ==> prompt@.len() > 0 && prompt@[0] != '/'
            && !text::white_space(prompt@[0]),
        action is Wait <==> text::blank(line@),
        !(action is Quit) && !(action is Report),
{
    text::lemma_blank_trims_to_nothing(line@);
    text::lemma_trimmed_starts_solid(line@);
}

/// A line is a command or a prompt with the characters that are left of it after
/// trimming. Ctrl-C is passed over, the end of input leaves, and a failure is
/// told with its own text before the loop leaves.
pub proof fn law_input_decides_what_is_next(
    line: String,
    error: String,
    action: ReplAction,
    colors: bool,
)
    ensures
        answers(ReplEvent::Line(line), action, colors) && text::trimmed(line@).len() > 0
            && text::trimmed(line@)[0] == '/' ==> (action matches ReplAction::Slash(input)
            && input@ == text::trimmed(line@)),
        answers(ReplEvent::Line(line), action, colors) && text::trimmed(line@).len() > 0
            && text::trimmed(line@)[0] != '/' ==> (action matches ReplAction::Prompt(prompt)
            && prompt@ == text::trimmed(line@)),
        answers(ReplEvent::Interrupted, action, colors) ==> action is Wait,
        answers(ReplEvent::Eof, action, colors) ==> action is Quit,
        answers(ReplEvent::Failed(error), action, colors) ==> (action matches ReplAction::Report(
            report,
        ) && report@ == render::styled("31"@, "input error: "@ + error@, colors)),
{
}

proof fn lemma_command_names()
    ensures
        no_duplicates(command_names()),
{
    reveal_strlit("exit");
    reveal_strlit("quit");
    reveal_strlit("q");
    reveal_strlit("help");
    reveal_strlit("h");
    reveal_strlit("?");
    reveal_strlit("clear");
    reveal_strlit("model");
    reveal_strlit("thinking");
    reveal_strlit("compact");
    reveal_strlit("tools");
    reveal_strlit("context");
    reveal_strlit("ctx");
    reveal_strlit("cost");
    reveal_strlit("system");
    assert("exit"@.len() == 4 && "exit"@[0] == 'e');
    assert("quit"@.len() == 4 && "quit"@[0] == 'q');
    assert("q"@.len() == 1 && "q"@[0] == 'q');
    assert("help"@.len() == 4 && "help"@[0] == 'h');
    assert("h"@.len() == 1 && "h"@[0] == 'h');
    assert("?"@.len() == 1 && "?"@[0] == '?');
    assert("clear"@.len() == 5 && "clear"@[0] == 'c');
    assert("model"@.len() == 5 && "model"@[0] == 'm');
    assert("thinking"@.len() == 8);
    assert("compact"@.len() == 7 && "compact"@[3] == 'p');
    assert("tools"@.len() == 5 && "tools"@[0] == 't');
    assert("context"@.len() == 7 && "context"@[3] == 't');
    assert("ctx"@.len() == 3);
    assert("cost"@.len() == 4 && "cost"@[0] == 'c');
    assert("system"@.len() == 6);
}

/// The names of the commands.
pub open spec fn command_names() -> Seq<Seq<char>> {
    seq![
        "exit"@,
        "quit"@,
        "q"@,
        "help"@,
        "h"@,
        "?"@,
        "clear"@,
        "model"@,
        "thinking"@,
        "compact"@,
        "tools"@,
        "context"@,
        "ctx"@,
        "cost"@,
        "system"@,
    ]
}

/// Whether no two names are the same.
pub open spec fn no_duplicates(names: Seq<Seq<char>>) -> bool {
    forall|i: int, j: int| 0 <= i < j < names.len() ==> #[trigger] names[i] != #[trigger] names[j]
}

/// The first word names the command, under any of its names; the words after it
/// are its arguments, joined by blanks for a model, the first alone for a
/// thinking level. Any other word is unknown and kept as it is.
pub proof fn law_first_words_name_commands(words: Seq<Seq<char>>, rest: Seq<Seq<char>>)
    ensures
        command_named(seq!["exit"@] + rest) is Exit,
        command_named(seq!["quit"@] + rest) is Exit,
        command_named(seq!["q"@] + rest) is Exit,
        command_named(seq!["help"@] + rest) is Help,
        command_named(seq!["h"@] + rest) is Help,
        command_named(seq!["?"@] + rest) is Help,
        command_named(seq!["clear"@] + rest) is Clear,
        command_named(seq!["model"@] + rest) == Command::Model(text::join(rest, " "@)),
        rest.len() > 0 ==> command_named(seq!["thinking"@] + rest) == Command::Thinking(rest[0]),
        rest.len() == 0 ==> command_named(seq!["thinking"@] + rest) == Command::Thinking(
            Seq::empty(),
        ),
        command_named(seq!["compact"@] + rest) is Compact,
        command_named(seq!["tools"@] + rest) is Tools,
        command_named(seq!["context"@] + rest) is Context,
        command_named(seq!["ctx"@] + rest) is Context,
        command_named(seq!["cost"@] + rest) is Cost,
        command_named(seq!["system"@] + rest) is System,
        words.len() == 0 <==> command_named(words) is Nothing,
        words.len() > 0 && !command_names().contains(words[0]) ==> command_named(words)
            == Command::Unknown(words[0]),
        command_named(words) is Unknown ==> command_named(words) == Command::Unknown(words[0])
            && !command_names().contains(words[0]),
{
    lemma_command_names();
    let names = command_names();
    assert(names.len() == 15);
    assert(names[0] == "exit"@ && names[1] == "quit"@ && names[2] == "q"@);
    assert(names[3] == "help"@ && names[4] == "h"@ && names[5] == "?"@);
    assert(names[6] == "clear"@ && names[7] == "model"@ && names[8] == "thinking"@);
    assert(names[9] == "compact"@ && names[10] == "tools"@ && names[11] == "context"@);
    assert(names[12] == "ctx"@ && names[13] == "cost"@ && names[14] == "system"@);
    assert((seq!["model"@] + rest).skip(1) =~= rest);
    if command_named(words) is Unknown && names.contains(words[0]) {
        let i = choose|i: int| 0 <= i < names.len() && names[i] == words[0];
        assert(names[i] == words[0]);
    }
}

/// A command does what it says and nothing else: leave, drop the conversation,
/// look up what it names, or compact. All others leave the session as it is.
pub proof fn law_commands_do_what_they_say(pattern: Seq<char>, command: Command, action: SlashAction)
    ensures
        acts_on(Command::Exit, action) ==> action is Exit,
        acts_on(Command::Clear, action) ==> action is ClearMessages,
        acts_on(Command::Model(pattern), action) && pattern.len() > 0 ==> (
        action matches SlashAction::SwitchModel(p) && p@ == pattern),
        acts_on(Command::Model(pattern), action) && pattern.len() == 0 ==> action is Stay,
        acts_on(Command::Thinking(pattern), action) ==> (action matches SlashAction::SetThinking(n)
            && n@ == pattern),
        acts_on(Command::Compact, action) ==> action is Compact,
        acts_on(command, action) && !(command is Exit) && !(command is Clear) && !(
        command is Model) && !(command is Thinking) && !(command is Compact) ==> action is Stay,
{
}

/// What a command shows is what the session holds: its model, every tool in
/// order, its token counts and its price.
pub proof fn law_commands_show_the_session(
    view: SessionView,
    name: Seq<char>,
    pattern: Seq<char>,
    colors: bool,
)
    requires
        pattern.len() > 0,
    ensures
        command_lines(Command::Clear, view, colors) == seq![
            render::styled("32"@, "Conversation cleared."@, colors),
        ],
        command_lines(Command::Model(Seq::empty()), view, colors) == seq![
            render::styled("2"@, "current model:"@, colors) + " "@ + view.model_id@,
        ],
        command_lines(Command::Tools, view, colors) == seq![
            render::styled("2"@, "tools"@, colors) + " "@ + text::join(
                text::views(view.tool_names@),
                ", "@,
            ),
        ],
        command_lines(Command::Context, view, colors) == seq![
            render::styled("2"@, "context"@, colors) + " ~"@ + text::decimal(
                view.estimated_tokens as nat,
            ) + " tokens / "@ + text::decimal(view.context_window as nat) + " ("@ + text::decimal(
                view.context_percent as nat,
            ) + "%)"@,
        ],
        command_lines(Command::Cost, view, colors) == seq![
            render::styled("2"@, "usage"@, colors) + " in="@ + text::decimal(
                view.total_usage.input as nat,
            ) + " out="@ + text::decimal(view.total_usage.output as nat) + " cache_read="@
                + text::decimal(view.total_usage.cache_read as nat) + " cache_write="@
                + text::decimal(view.total_usage.cache_write as nat) + " cost=$"@ + view.cost@,
        ],
        command_lines(Command::Unknown(name), view, colors) == seq![
            render::styled("31"@, "Unknown command: /"@ + name + " (try /help)"@, colors),
        ],
        command_lines(Command::Exit, view, colors).len() == 0,
        command_lines(Command::Compact, view, colors).len() == 0,
        command_lines(Command::Nothing, view, colors).len() == 0,
        command_lines(Command::Model(pattern), view, colors).len() == 0,
        command_lines(Command::Thinking(name), view, colors).len() == 0,
{
}

/// Of the system prompt, the first six hundred characters are shown, and all of a
/// shorter one; a second line tells of the rest exactly where there is one.
pub proof fn law_previews_start_the_prompt(view: SessionView, colors: bool)
    ensures
        ({
            let lines = command_lines(Command::System, view, colors);
            let prompt = view.system_prompt@;
            &&& prompt.len() <= 600 ==> lines == seq![prompt]
            &&& prompt.len() > 600 ==> {
                &&& lines.len() == 2
                &&& lines[0].len() == 600
                &&& lines[0].is_prefix_of(prompt)
                &&& lines[1] == render::styled("2"@, "…(truncated)"@, colors)
            }
        }),
{
}

/// The help names each command beside what it does.
pub proof fn law_help_lists_the_commands(view: SessionView, colors: bool)
    ensures
        ({
            let lines = command_lines(Command::Help, view, colors);
            let row = |c: Seq<char>, d: Seq<char>|
                "  "@ + render::styled("33"@, c, colors) + "   "@ + render::styled("2"@, d, colors);
            &&& lines.len() == 11
            &&& lines[0] == render::styled("34"@, "Slash commands:"@, colors)
            &&& lines[1] == row("/help"@, "show this help"@)
            &&& lines[2] == row("/exit"@, "quit the session"@)
            &&& lines[3] == row("/clear"@, "clear the conversation"@)
            &&& lines[4] == row("/model <id>"@, "switch model"@)
            &&& lines[5] == row("/thinking <level>"@, "off|minimal|low|medium|high|xhigh"@)
            &&& lines[6] == row("/compact"@, "summarize old messages to fit the context"@)
            &&& lines[7] == row("/tools"@, "list available tools"@)
            &&& lines[8] == row("/context"@, "show token usage"@)
            &&& lines[9] == row("/cost"@, "show cumulative cost"@)
            &&& lines[10] == row("/system"@, "show the system prompt"@)
        }),
{
}

/// A switch names the old model and the new one; a failed lookup lists every
/// model there is.
pub proof fn law_lookups_name_the_models(
    old_id: Seq<char>,
    new_id: Seq<char>,
    available: Seq<Seq<char>>,
    colors: bool,
)
    ensures
        model_switched(old_id, new_id, colors) == render::styled("2"@, "model"@, colors) + " "@
            + old_id + " → "@ + render::styled("32"@, new_id, colors),
        model_unknown(available, colors) == render::styled(
            "31"@,
            "Unknown model. Available: "@ + text::join(available, ", "@),
            colors,
        ),
{
}

/// The banner names the version, the model, the share of the context in use, the
/// working directory and every tool.
pub proof fn law_the_banner_names_the_session(
    model_id: Seq<char>,
    percent: nat,
    cwd: Seq<char>,
    tools: Seq<Seq<char>>,
    colors: bool,
)
    ensures
        ({
            let lines = banner_lines(model_id, percent, cwd, tools, colors);
            &&& lines.len() == 5
            &&& lines[0] == render::styled("35"@, "pixie-pi"@, colors) + " v"@ + "0.1.0"@
                + "  —  "@ + render::styled("2"@, "model"@, colors) + " "@ + render::styled(
                "32"@,
                model_id,
                colors,
            ) + "  —  "@ + render::styled("2"@, "("@ + text::decimal(percent) + "%)"@, colors)
            &&& lines[1] == render::styled("2"@, "cwd"@, colors) + " "@ + cwd
            &&& lines[2] == render::styled("2"@, "tools"@, colors) + " "@ + text::join(
                tools,
                ", "@,
            )
            &&& lines[4].len() == 0
        }),
{
}

/// A parsed command shows its own words.
pub proof fn law_commands_keep_their_words(s: String)
    ensures
        SlashCommand::Model(s)@ == Command::Model(s@),
        SlashCommand::Thinking(s)@ == Command::Thinking(s@),
        SlashCommand::Unknown(s)@ == Command::Unknown(s@),
        SlashCommand::Exit@ is Exit && SlashCommand::Help@ is Help && SlashCommand::Clear@ is Clear,
        SlashCommand::Compact@ is Compact && SlashCommand::Tools@ is Tools,
        SlashCommand::Context@ is Context && SlashCommand::Cost@ is Cost,
        SlashCommand::System@ is System && SlashCommand::Nothing@ is Nothing,
{
}

/// A lookup that found something is answered with its label or its id and is
/// acted on; one that found nothing is answered with what there is, and changes
/// nothing.
pub proof fn law_lookups_are_answered(
    old_id: Seq<char>,
    found: Seq<char>,
    available: Seq<Seq<char>>,
    colors: bool,
    line: Seq<char>,
    switch: bool,
)
    ensures
        model_answered(old_id, Some(found), available, colors, line, switch) ==> switch && line
            == render::styled("2"@, "model"@, colors) + " "@ + old_id + " → "@ + render::styled(
            "32"@,
            found,
            colors,
        ),
        model_answered(old_id, None, available, colors, line, switch) ==> !switch && line
            == render::styled(
            "31"@,
            "Unknown model. Available: "@ + text::join(available, ", "@),
            colors,
        ),
        thinking_line(Some(found), colors) == render::styled("2"@, "set"@, colors) + " thinking="@
            + found,
        thinking_line(None, colors) == render::styled(
            "31"@,
            "Usage: /thinking off|minimal|low|medium|high|xhigh"@,
            colors,
        ),
{
}

/// A compaction tells how many messages it dropped, and a turn how many tokens
/// went out and in, what was spent and how much of the context is in use.
pub proof fn law_counts_are_told(
    dropped: nat,
    output: nat,
    input: nat,
    cost: Seq<char>,
    percent: nat,
    colors: bool,
)
    ensures
        compacted_text(dropped, colors) == render::styled(
            "32"@,
            "Compacted: dropped "@ + text::decimal(dropped) + " messages."@,
            colors,
        ),
        status_text(output, input, cost, percent, colors) == render::styled(
            "2"@,
            "  ↳ "@ + text::decimal(output) + " out, "@ + text::decimal(input) + " in, $"@ + cost
                + ", ctx "@ + text::decimal(percent) + "%"@,
            colors,
        ),
{
}

} // verus!
