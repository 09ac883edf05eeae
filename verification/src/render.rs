//! Terminal rendering: colors, tool summaries and the text of run events.

use vstd::prelude::*;

use crate::json;
use crate::json::{Json, Tree};
use crate::text;
use crate::types::{AgentEvent, AssistantMessageEvent, Message};

verus! {

// ---------------------------------------------------------------------------
// Colors
// ---------------------------------------------------------------------------

/// Whether to color: standard output is a terminal and `NO_COLOR` is not set.
pub fn colors_enabled(no_color_set: bool, stdout_is_tty: bool) -> (r: bool)
    ensures
        r == (!no_color_set && stdout_is_tty),
{
    if no_color_set {
        return false;
    }
    stdout_is_tty
}

/// A text in a terminal style, or as it is where colors are off.
pub open spec fn styled(code: Seq<char>, s: Seq<char>, colors: bool) -> Seq<char> {
    if colors {
        "\x1b["@ + code + "m"@ + s + "\x1b[0m"@
    } else {
        s
    }
}

fn wrap(code: &str, s: &str, colors: bool) -> (r: String)
    ensures
        r@ == styled(code@, s@, colors),
{
    if colors {
        let mut out = "\x1b[".to_string();
        out.append(code);
        out.append("m");
        out.append(s);
        out.append("\x1b[0m");
        out
    } else {
        s.to_string()
    }
}

/// Dims a text.
pub fn dim(s: &str, colors: bool) -> (r: String)
    ensures
        r@ == styled("2"@, s@, colors),
{
    wrap("2", s, colors)
}

/// Makes a text bold.
pub fn bold(s: &str, colors: bool) -> (r: String)
    ensures
        r@ == styled("1"@, s@, colors),
{
    wrap("1", s, colors)
}

/// Colors a text green.
pub fn green(s: &str, colors: bool) -> (r: String)
    ensures
        r@ == styled("32"@, s@, colors),
{
    wrap("32", s, colors)
}

/// Colors a text red.
pub fn red(s: &str, colors: bool) -> (r: String)
    ensures
        r@ == styled("31"@, s@, colors),
{
    wrap("31", s, colors)
}

/// Colors a text yellow.
pub fn yellow(s: &str, colors: bool) -> (r: String)
    ensures
        r@ == styled("33"@, s@, colors),
{
    wrap("33", s, colors)
}

/// Colors a text blue.
pub fn blue(s: &str, colors: bool) -> (r: String)
    ensures
        r@ == styled("34"@, s@, colors),
{
    wrap("34", s, colors)
}

/// Colors a text magenta.
pub fn magenta(s: &str, colors: bool) -> (r: String)
    ensures
        r@ == styled("35"@, s@, colors),
{
    wrap("35", s, colors)
}

// ---------------------------------------------------------------------------
// Tool summaries
// ---------------------------------------------------------------------------

/// The string argument of a name; nothing where there is none.
pub open spec fn argument(args: Tree, key: Seq<char>) -> Seq<char> {
    match json::text_field(args, key) {
        Some(s) => s,
        None => Seq::empty(),
    }
}

/// The path argument, under either of its names.
pub open spec fn path_argument(args: Tree) -> Seq<char> {
    if argument(args, "path"@).len() > 0 {
        argument(args, "path"@)
    } else {
        argument(args, "file_path"@)
    }
}

/// How many edits a call makes; one where it does not list them.
pub open spec fn edit_count(args: Tree) -> nat {
    match json::field(args, "edits"@) {
        Some(Tree::Array(edits)) => edits.len(),
        _ => 1,
    }
}

/// The first string among the entries.
pub open spec fn first_text(entries: Seq<(Seq<char>, Tree)>) -> Seq<char>
    decreases entries.len(),
{
    if entries.len() == 0 {
        Seq::empty()
    } else {
        match entries[0].1 {
            Tree::Str(s) => s,
            _ => first_text(entries.drop_first()),
        }
    }
}

/// What a call of a tool is about.
pub open spec fn call_subject(name: Seq<char>, args: Tree) -> Seq<char> {
    if name == "read"@ || name == "write"@ {
        path_argument(args)
    } else if name == "edit"@ {
        path_argument(args) + " ("@ + text::decimal(edit_count(args)) + " edit"@ + (
        if edit_count(args) == 1 {
            ""@
        } else {
            "s"@
        }) + ")"@
    } else if name == "bash"@ {
        argument(args, "command"@)
    } else if name == "grep"@ {
        let whole = "/"@ + argument(args, "pattern"@) + "/"@;
        if argument(args, "path"@).len() == 0 {
            whole
        } else {
            whole + " in "@ + argument(args, "path"@)
        }
    } else if name == "find"@ {
        if argument(args, "path"@).len() == 0 {
            argument(args, "pattern"@)
        } else {
            argument(args, "pattern"@) + " in "@ + argument(args, "path"@)
        }
    } else if name == "ls"@ {
        if argument(args, "path"@).len() == 0 {
            "."@
        } else {
            argument(args, "path"@)
        }
    } else {
        match args {
            Tree::Object(entries) => first_text(entries),
            _ => Seq::empty(),
        }
    }
}

/// The summary of a call: a blank and its subject on one line, or nothing.
pub open spec fn call_summary(name: Seq<char>, args: Tree) -> Seq<char> {
    if call_subject(name, args).len() == 0 {
        Seq::empty()
    } else {
        " "@ + text::one_line(call_subject(name, args))
    }
}

fn argument_str<'a>(args: &'a Json, key: &str) -> (r: &'a str)
    ensures
        r@ == argument(args@, key@),
{
    match args.get_str(key) {
        Some(s) => s,
        None => {
            proof {
                reveal_strlit("");
                assert(""@ =~= Seq::empty());
            }
            ""
        },
    }
}

fn path_str(args: &Json) -> (r: &str)
    ensures
        r@ == path_argument(args@),
{
    let p = argument_str(args, "path");
    if !p.is_empty() {
        p
    } else {
        argument_str(args, "file_path")
    }
}

fn count_edits(args: &Json) -> (r: usize)
    ensures
        r == edit_count(args@),
{
    match args.get("edits") {
        Some(edits) => match edits.as_array() {
            Some(list) => list.len(),
            None => 1,
        },
        None => 1,
    }
}

fn first_str(args: &Json) -> (r: String)
    ensures
        r@ == (match args@ {
            Tree::Object(entries) => first_text(entries),
            _ => Seq::empty(),
        }),
{
    broadcast use json::group_json_view;

    match args {
        Json::Object(entries) => {
            let ghost all = json::entry_trees(entries@);
            let mut i: usize = 0;
            assert(all.skip(0) =~= all);
            while i < entries.len()
                invariant
                    i <= entries.len(),
                    all == json::entry_trees(entries@),
                    args@ == Tree::Object(all),
                    first_text(all) == first_text(all.skip(i as int)),
                decreases entries.len() - i,
            {
                proof {
                    assert(all.skip(i as int)[0] == all[i as int]);
                    assert(all.skip(i as int).drop_first() =~= all.skip(i + 1));
                }
                match &entries[i].1 {
                    Json::Str(s) => {
                        return s.clone();
                    },
                    _ => {},
                }
                i = i + 1;
            }
            String::new()
        },
        _ => String::new(),
    }
}

fn subject(name: &str, args: &Json) -> (r: String)
    ensures
        r@ == call_subject(name@, args@),
{
    if text::same(name, "read") || text::same(name, "write") {
        path_str(args).to_string()
    } else if text::same(name, "edit") {
        let n: usize = count_edits(args);
        let mut s = path_str(args).to_string();
        s.append(" (");
        s.append(text::decimal_string(n as u64).as_str());
        s.append(" edit");
        s.append(
            if n == 1 {
                ""
            } else {
                "s"
            },
        );
        s.append(")");
        s
    } else if text::same(name, "bash") {
        argument_str(args, "command").to_string()
    } else if text::same(name, "grep") {
        let path = argument_str(args, "path");
        let mut s = "/".to_string();
        s.append(argument_str(args, "pattern"));
        s.append("/");
        if !path.is_empty() {
            s.append(" in ");
            s.append(path);
        }
        s
    } else if text::same(name, "find") {
        let path = argument_str(args, "path");
        let mut s = argument_str(args, "pattern").to_string();
        if !path.is_empty() {
            s.append(" in ");
            s.append(path);
        }
        s
    } else if text::same(name, "ls") {
        let path = argument_str(args, "path");
        if path.is_empty() {
            ".".to_string()
        } else {
            path.to_string()
        }
    } else {
        first_str(args)
    }
}

/// Summarizes a tool call on one line.
pub fn tool_call_summary(name: &str, args: &Json) -> (r: String)
    ensures
        r@ == call_summary(name@, args@),
        forall|i: int| 0 <= i < r@.len() ==> #[trigger] r@[i] != '\n' && r@[i] != '\r',
{
    proof {
        law_summary_is_one_line(name@, args@);
    }
    let about = subject(name, args);
    if about.as_str().is_empty() {
        String::new()
    } else {
        let mut s = " ".to_string();
        s.append(text::single_line(about.as_str()).as_str());
        s
    }
}

// ---------------------------------------------------------------------------
// Events
// ---------------------------------------------------------------------------

/// A piece of output.
#[derive(Debug)]
pub enum Chunk {
    /// For standard output.
    Stdout(String),
    /// For standard error.
    Stderr(String),
}

/// The content of a [`Chunk`].
pub enum Piece {
    Stdout(Seq<char>),
    Stderr(Seq<char>),
}

impl View for Chunk {
    type V = Piece;

    open spec fn view(&self) -> Piece {
        match self {
            Chunk::Stdout(s) => Piece::Stdout(s@),
            Chunk::Stderr(s) => Piece::Stderr(s@),
        }
    }
}

/// The contents of chunks.
pub open spec fn pieces(chunks: Seq<Chunk>) -> Seq<Piece> {
    Seq::new(chunks.len(), |i: int| chunks[i]@)
}

/// Renders events as they arrive.
#[derive(Debug)]
pub struct EventRenderer {
    /// Whether thinking is shown.
    pub show_thinking: bool,
    /// Whether a line of assistant text is open.
    pub text_open: bool,
}

/// The break that closes an open line.
pub open spec fn line_break(open: bool) -> Seq<Piece> {
    if open {
        seq![Piece::Stdout("\n"@)]
    } else {
        Seq::empty()
    }
}

/// A line on standard error.
pub open spec fn error_line(msg: Seq<char>, colors: bool) -> Piece {
    Piece::Stderr(styled("31"@, "error: "@ + msg, colors) + "\n"@)
}

/// The line that announces a tool call.
pub open spec fn tool_line(name: Seq<char>, args: Tree, colors: bool) -> Piece {
    Piece::Stderr(
        styled("34"@, "⏺ "@ + name, colors) + " "@ + styled("2"@, call_summary(name, args), colors)
            + "\n"@,
    )
}

/// What an event prints.
pub open spec fn printed(open: bool, thinking: bool, ev: AgentEvent, colors: bool) -> Seq<Piece> {
    match ev {
        AgentEvent::MessageUpdate { event: AssistantMessageEvent::TextDelta { delta } } => seq![
            Piece::Stdout(delta@),
        ],
        AgentEvent::MessageUpdate { event: AssistantMessageEvent::ThinkingDelta { delta } } => {
            if thinking {
                seq![Piece::Stderr(styled("2"@, delta@, colors))]
            } else {
                Seq::empty()
            }
        },
        AgentEvent::MessageEnd(Message::Assistant(_)) => line_break(open),
        AgentEvent::ToolExecutionStart { tool_name, args } => line_break(open).push(
            tool_line(tool_name@, args@, colors),
        ),
        AgentEvent::ToolExecutionEnd { is_error } => {
            if is_error {
                seq![Piece::Stderr(styled("31"@, "  ⎿  (error)"@, colors) + "\n"@)]
            } else {
                Seq::empty()
            }
        },
        AgentEvent::TurnEnd { message } => match message.error_message {
            Some(error) => line_break(open).push(error_line(error@, colors)),
            None => Seq::empty(),
        },
        AgentEvent::Error(msg) => seq![error_line(msg@, colors)],
        _ => Seq::empty(),
    }
}

/// Whether a line is open after an event.
pub open spec fn open_after(open: bool, ev: AgentEvent) -> bool {
    match ev {
        AgentEvent::MessageStart(Message::Assistant(_)) => true,
        AgentEvent::MessageEnd(Message::Assistant(_)) => false,
        AgentEvent::ToolExecutionStart { .. } => false,
        AgentEvent::TurnEnd { message } => open && message.error_message is None,
        _ => open,
    }
}

fn error_chunk(msg: &str, colors: bool) -> (r: Chunk)
    ensures
        r@ == error_line(msg@, colors),
{
    let mut s = "error: ".to_string();
    s.append(msg);
    let mut line = red(s.as_str(), colors);
    line.append("\n");
    Chunk::Stderr(line)
}

impl EventRenderer {
    /// A renderer with no line open.
    pub fn new(show_thinking: bool) -> (r: EventRenderer)
        ensures
            r.show_thinking == show_thinking,
            !r.text_open,
    {
        EventRenderer { show_thinking, text_open: false }
    }

    fn close_line(&mut self, out: &mut Vec<Chunk>)
        ensures
            pieces(final(out)@) == pieces(old(out)@) + line_break(old(self).text_open),
            !final(self).text_open,
            final(self).show_thinking == old(self).show_thinking,
    {
        if self.text_open {
            out.push(Chunk::Stdout("\n".to_string()));
            self.text_open = false;
        }
        assert(pieces(out@) =~= pieces(old(out)@) + line_break(old(self).text_open));
    }

    /// Renders one event: what to print, in order, and whether the run has
    /// ended.
    pub fn handle(&mut self, ev: &AgentEvent, colors: bool) -> (r: (Vec<Chunk>, bool))
        ensures
            pieces(r.0@) == printed(old(self).text_open, old(self).show_thinking, *ev, colors),
            r.1 == (*ev is AgentEnd),
            final(self).text_open == open_after(old(self).text_open, *ev),
            final(self).show_thinking == old(self).show_thinking,
    {
        let mut out: Vec<Chunk> = Vec::new();
        let mut ended = false;
        assert(pieces(out@) =~= Seq::empty());
        match ev {
            AgentEvent::MessageUpdate { event } => {
                self.handle_stream_event(event, colors, &mut out);
            },
            AgentEvent::MessageStart(Message::Assistant(_)) => {
                self.text_open = true;
            },
            AgentEvent::MessageEnd(Message::Assistant(_)) => {
                self.close_line(&mut out);
            },
            AgentEvent::ToolExecutionStart { tool_name, args } => {
                self.close_line(&mut out);
                let summary = tool_call_summary(tool_name.as_str(), args);
                let mut head = "⏺ ".to_string();
                head.append(tool_name.as_str());
                let mut line = blue(head.as_str(), colors);
                line.append(" ");
                line.append(dim(summary.as_str(), colors).as_str());
                line.append("\n");
                out.push(Chunk::Stderr(line));
            },
            AgentEvent::ToolExecutionEnd { is_error } => {
                if *is_error {
                    let mut line = red("  ⎿  (error)", colors);
                    line.append("\n");
                    out.push(Chunk::Stderr(line));
                }
            },
            AgentEvent::TurnEnd { message } => {
                if let Some(error) = &message.error_message {
                    self.close_line(&mut out);
                    out.push(error_chunk(error.as_str(), colors));
                }
            },
            AgentEvent::Error(msg) => {
                out.push(error_chunk(msg.as_str(), colors));
            },
            AgentEvent::AgentEnd { .. } => {
                ended = true;
            },
            _ => {},
        }
        assert(pieces(out@) =~= printed(
            old(self).text_open,
            old(self).show_thinking,
            *ev,
            colors,
        ));
        (out, ended)
    }

    fn handle_stream_event(
        &self,
        event: &AssistantMessageEvent,
        colors: bool,
        out: &mut Vec<Chunk>,
    )
        requires
            old(out)@.len() == 0,
        ensures
            pieces(final(out)@) == printed(
                self.text_open,
                self.show_thinking,
                AgentEvent::MessageUpdate { event: *event },
                colors,
            ),
    {
        match event {
            AssistantMessageEvent::TextDelta { delta } => {
                out.push(Chunk::Stdout(delta.clone()));
            },
            AssistantMessageEvent::ThinkingDelta { delta } => {
                if self.show_thinking {
                    out.push(Chunk::Stderr(dim(delta.as_str(), colors)));
                }
            },
            _ => {},
        }
        assert(pieces(out@) =~= printed(
            self.text_open,
            self.show_thinking,
            AgentEvent::MessageUpdate { event: *event },
            colors,
        ));
    }
}

// ---------------------------------------------------------------------------
// Laws
// ---------------------------------------------------------------------------

/// Without colors every text stays as it is.
pub proof fn law_no_colors_no_change(code: Seq<char>, s: Seq<char>)
    ensures
        styled(code, s, false) == s,
{
}

/// A summary never breaks the line, whatever the arguments hold.
pub proof fn law_summary_is_one_line(name: Seq<char>, args: Tree)
    ensures
        forall|i: int|
            0 <= i < call_summary(name, args).len() ==> !text::line_break(
                #[trigger] call_summary(name, args)[i],
            ),
{
    reveal_strlit(" ");
    assert(" "@.len() == 1);
}

/// A summary is empty or starts with one blank, before a subject that is not
/// empty.
pub proof fn law_summary_is_set_off(name: Seq<char>, args: Tree)
    ensures
        call_summary(name, args).len() == 0 || (call_summary(name, args)[0] == ' ' && call_summary(
            name,
            args,
        ).skip(1) == text::one_line(call_subject(name, args))),
{
    reveal_strlit(" ");
    let subject = text::one_line(call_subject(name, args));
    if subject.len() > 0 {
        assert(" "@.len() == 1);
        assert((" "@ + subject).skip(1) =~= subject);
    }
}

/// Whether a line is open after a run of events.
pub open spec fn open_after_all(open: bool, events: Seq<AgentEvent>) -> bool
    decreases events.len(),
{
    if events.len() == 0 {
        open
    } else {
        open_after(open_after_all(open, events.drop_last()), events.last())
    }
}

/// How often a run of events closes a line.
pub open spec fn closings(open: bool, events: Seq<AgentEvent>) -> nat
    decreases events.len(),
{
    if events.len() == 0 {
        0
    } else {
        let before = open_after_all(open, events.drop_last());
        closings(open, events.drop_last()) + (if before && !open_after(before, events.last()) {
            1nat
        } else {
            0nat
        })
    }
}

/// How many assistant messages a run of events starts.
pub open spec fn starts(events: Seq<AgentEvent>) -> nat
    decreases events.len(),
{
    if events.len() == 0 {
        0
    } else {
        starts(events.drop_last()) + (if events.last() matches AgentEvent::MessageStart(
            Message::Assistant(_),
        ) {
            1nat
        } else {
            0nat
        })
    }
}

/// An event prints a line break first exactly when it closes an open line.
pub proof fn law_break_closes_an_open_line(open: bool, thinking: bool, ev: AgentEvent, colors: bool)
    ensures
        open && !open_after(open, ev) ==> printed(open, thinking, ev, colors).len() > 0 && printed(
            open,
            thinking,
            ev,
            colors,
        )[0] == Piece::Stdout("\n"@),
        open && !open_after(open, ev) ==> printed(open, thinking, ev, colors).drop_first()
            == printed(false, thinking, ev, colors),
        !open || open_after(open, ev) ==> printed(open, thinking, ev, colors) == printed(
            false,
            thinking,
            ev,
            colors,
        ),
{
    if open && !open_after(open, ev) {
        assert(printed(open, thinking, ev, colors).drop_first() =~= printed(
            false,
            thinking,
            ev,
            colors,
        ));
    }
}

/// A line is closed at most once for each message that opened one.
pub proof fn law_lines_close_at_most_once(events: Seq<AgentEvent>)
    ensures
        closings(false, events) + (if open_after_all(false, events) {
            1nat
        } else {
            0nat
        }) <= starts(events),
    decreases events.len(),
{
    if events.len() > 0 {
        law_lines_close_at_most_once(events.drop_last());
    }
}

/// With colors a text stands unchanged between its style's code and the reset.
pub proof fn law_styles_wrap_the_text(code: Seq<char>, s: Seq<char>)
    ensures
        styled(code, s, true) == "\x1b["@ + code + "m"@ + s + "\x1b[0m"@,
{
}

/// A chunk goes to the stream that it names, with its own characters.
pub proof fn law_chunks_keep_their_stream(s: String)
    ensures
        Chunk::Stdout(s)@ == Piece::Stdout(s@),
        Chunk::Stderr(s)@ == Piece::Stderr(s@),
{
}

/// What pieces print on standard output.
pub open spec fn stdout_of(pieces: Seq<Piece>) -> Seq<char>
    decreases pieces.len(),
{
    if pieces.len() == 0 {
        Seq::empty()
    } else {
        match pieces.last() {
            Piece::Stdout(s) => stdout_of(pieces.drop_last()) + s,
            Piece::Stderr(_) => stdout_of(pieces.drop_last()),
        }
    }
}

/// What pieces print on standard error.
pub open spec fn stderr_of(pieces: Seq<Piece>) -> Seq<char>
    decreases pieces.len(),
{
    if pieces.len() == 0 {
        Seq::empty()
    } else {
        match pieces.last() {
            Piece::Stderr(s) => stderr_of(pieces.drop_last()) + s,
            Piece::Stdout(_) => stderr_of(pieces.drop_last()),
        }
    }
}

proof fn lemma_streams_of_two(a: Piece, b: Piece)
    ensures
        stdout_of(Seq::empty()) == Seq::<char>::empty(),
        stderr_of(Seq::empty()) == Seq::<char>::empty(),
        a matches Piece::Stdout(s) ==> stdout_of(seq![a]) == s && stderr_of(seq![a]).len() == 0,
        a matches Piece::Stderr(s) ==> stderr_of(seq![a]) == s && stdout_of(seq![a]).len() == 0,
        stdout_of(seq![a, b]) == stdout_of(seq![a]) + stdout_of(seq![b]),
        stderr_of(seq![a, b]) == stderr_of(seq![a]) + stderr_of(seq![b]),
{
    reveal_with_fuel(stdout_of, 3);
    reveal_with_fuel(stderr_of, 3);
    assert(seq![a].drop_last() =~= Seq::empty());
    assert(seq![b].drop_last() =~= Seq::empty());
    assert(seq![a, b].drop_last() =~= seq![a]);
    assert(stdout_of(seq![a]) =~= (if a is Stdout {
        a->Stdout_0
    } else {
        Seq::empty()
    }));
    assert(stdout_of(seq![b]) =~= (if b is Stdout {
        b->Stdout_0
    } else {
        Seq::empty()
    }));
    assert(stderr_of(seq![a]) =~= (if a is Stderr {
        a->Stderr_0
    } else {
        Seq::empty()
    }));
    assert(stderr_of(seq![b]) =~= (if b is Stderr {
        b->Stderr_0
    } else {
        Seq::empty()
    }));
    assert(stdout_of(seq![a, b]) =~= stdout_of(seq![a]) + stdout_of(seq![b]));
    assert(stderr_of(seq![a, b]) =~= stderr_of(seq![a]) + stderr_of(seq![b]));
}

/// Whether an event closes a line of text that is open: the end of an assistant
/// message, the start of a tool call, or a turn that failed with an error.
pub open spec fn ends_line(ev: AgentEvent) -> bool {
    match ev {
        AgentEvent::MessageEnd(m) => m is Assistant,
        AgentEvent::ToolExecutionStart { .. } => true,
        AgentEvent::TurnEnd { message } => message.error_message is Some,
        _ => false,
    }
}

/// On standard output stand the characters of the answer, as they come, and the
/// breaks that close an open line; nothing else, whether or not thinking is shown
/// and whether or not there are colors.
pub proof fn law_standard_output_is_the_answer(
    open: bool,
    thinking: bool,
    ev: AgentEvent,
    colors: bool,
)
    ensures
        stdout_of(printed(open, thinking, ev, colors)) == (match ev {
            AgentEvent::MessageUpdate { event } => match event {
                AssistantMessageEvent::TextDelta { delta } => delta@,
                _ => Seq::empty(),
            },
            _ => if open && ends_line(ev) {
                "\n"@
            } else {
                Seq::empty()
            },
        }),
{
    let out = printed(open, thinking, ev, colors);
    if out.len() == 1 {
        assert(out =~= seq![out[0]]);
        lemma_streams_of_two(out[0], out[0]);
        assert(stdout_of(out) =~= (if out[0] is Stdout {
            out[0]->Stdout_0
        } else {
            Seq::empty()
        }));
    } else if out.len() == 2 {
        assert(out =~= seq![out[0], out[1]]);
        lemma_streams_of_two(out[0], out[1]);
        lemma_streams_of_two(out[1], out[1]);
        assert(stdout_of(out) =~= "\n"@);
    }
}

/// A text delta prints its own characters on standard output and nothing on
/// standard error, whatever the settings.
pub proof fn law_answers_go_to_standard_output(
    open: bool,
    thinking: bool,
    delta: String,
    colors: bool,
)
    ensures
        ({
            let ev = AgentEvent::MessageUpdate {
                event: AssistantMessageEvent::TextDelta { delta },
            };
            printed(open, thinking, ev, colors) == seq![Piece::Stdout(delta@)]
        }),
{
}

/// Thinking is shown on standard error, dimmed, and only on request; either way
/// it leaves standard output alone.
pub proof fn law_thinking_is_shown_on_request(open: bool, delta: String, colors: bool)
    ensures
        ({
            let ev = AgentEvent::MessageUpdate {
                event: AssistantMessageEvent::ThinkingDelta { delta },
            };
            &&& printed(open, false, ev, colors) == Seq::<Piece>::empty()
            &&& printed(open, true, ev, false) == seq![Piece::Stderr(delta@)]
            &&& printed(open, true, ev, true) == seq![
                Piece::Stderr("\x1b["@ + "2"@ + "m"@ + delta@ + "\x1b[0m"@),
            ]
        }),
{
}

/// What a run of events prints.
pub open spec fn printed_all(
    open: bool,
    thinking: bool,
    events: Seq<AgentEvent>,
    colors: bool,
) -> Seq<Piece>
    decreases events.len(),
{
    if events.len() == 0 {
        Seq::empty()
    } else {
        let before = events.drop_last();
        printed_all(open, thinking, before, colors) + printed(
            open_after_all(open, before),
            thinking,
            events.last(),
            colors,
        )
    }
}

proof fn lemma_streams_add(a: Seq<Piece>, b: Seq<Piece>)
    ensures
        stdout_of(a + b) == stdout_of(a) + stdout_of(b),
        stderr_of(a + b) == stderr_of(a) + stderr_of(b),
    decreases b.len(),
{
    if b.len() == 0 {
        assert(a + b =~= a);
        assert(stdout_of(a) + stdout_of(b) =~= stdout_of(a));
        assert(stderr_of(a) + stderr_of(b) =~= stderr_of(a));
    } else {
        lemma_streams_add(a, b.drop_last());
        assert((a + b).drop_last() =~= a + b.drop_last());
        assert((a + b).last() == b.last());
        assert(stdout_of(a + b) =~= stdout_of(a) + stdout_of(b));
        assert(stderr_of(a + b) =~= stderr_of(a) + stderr_of(b));
    }
}

/// Over a run, standard output is the same with thinking shown and hidden, and
/// with and without colors.
pub proof fn law_settings_leave_standard_output_alone(
    open: bool,
    events: Seq<AgentEvent>,
    thinking: bool,
    colors: bool,
)
    ensures
        stdout_of(printed_all(open, thinking, events, colors)) == stdout_of(
            printed_all(open, false, events, false),
        ),
    decreases events.len(),
{
    if events.len() > 0 {
        let before = events.drop_last();
        let now = open_after_all(open, before);
        law_settings_leave_standard_output_alone(open, before, thinking, colors);
        law_standard_output_is_the_answer(now, thinking, events.last(), colors);
        law_standard_output_is_the_answer(now, false, events.last(), false);
        lemma_streams_add(
            printed_all(open, thinking, before, colors),
            printed(now, thinking, events.last(), colors),
        );
        lemma_streams_add(
            printed_all(open, false, before, false),
            printed(now, false, events.last(), false),
        );
    }
}

/// Without colors, a tool call is announced on standard error by its name and its
/// summary, a failed tool by its mark, and an error by its text, each on a line.
/// A tool that succeeds, and all that is neither text, thinking, call nor
/// failure, says nothing there.
pub proof fn law_standard_error_tells_of_calls_and_failures(
    open: bool,
    thinking: bool,
    ev: AgentEvent,
)
    ensures
        stderr_of(printed(open, thinking, ev, false)) == (match ev {
            AgentEvent::ToolExecutionStart { tool_name, args } => "⏺ "@ + tool_name@ + " "@
                + call_summary(tool_name@, args@) + "\n"@,
            AgentEvent::ToolExecutionEnd { is_error } => if is_error {
                "  ⎿  (error)"@ + "\n"@
            } else {
                Seq::empty()
            },
            AgentEvent::Error(msg) => "error: "@ + msg@ + "\n"@,
            AgentEvent::TurnEnd { message } => match message.error_message {
                Some(error) => "error: "@ + error@ + "\n"@,
                None => Seq::empty(),
            },
            AgentEvent::MessageUpdate { event } => match event {
                AssistantMessageEvent::ThinkingDelta { delta } => if thinking {
                    delta@
                } else {
                    Seq::empty()
                },
                _ => Seq::empty(),
            },
            _ => Seq::empty(),
        }),
{
    let out = printed(open, thinking, ev, false);
    if out.len() == 1 {
        assert(out =~= seq![out[0]]);
        lemma_streams_of_two(out[0], out[0]);
        assert(stderr_of(out) =~= (if out[0] is Stderr {
            out[0]->Stderr_0
        } else {
            Seq::empty()
        }));
    } else if out.len() == 2 {
        assert(out =~= seq![out[0], out[1]]);
        lemma_streams_of_two(out[0], out[1]);
        lemma_streams_of_two(out[1], out[1]);
        assert(stderr_of(out) =~= out[1]->Stderr_0);
    }
}

/// A line is opened by the start of an assistant message and by nothing else; it
/// stays open until an event closes it.
pub proof fn law_lines_open_with_an_answer(open: bool, ev: AgentEvent)
    ensures
        ev matches AgentEvent::MessageStart(m) && m is Assistant ==> open_after(open, ev),
        open_after(false, ev) ==> (ev matches AgentEvent::MessageStart(m) && m is Assistant),
        ends_line(ev) ==> !open_after(open, ev),
        open && !ends_line(ev) ==> open_after(open, ev),
{
}

proof fn lemma_tool_names()
    ensures
        "read"@ != "write"@ && "read"@ != "edit"@ && "read"@ != "bash"@ && "read"@ != "grep"@
            && "read"@ != "find"@ && "read"@ != "ls"@,
        "write"@ != "edit"@ && "write"@ != "bash"@ && "write"@ != "grep"@ && "write"@ != "find"@
            && "write"@ != "ls"@,
        "edit"@ != "bash"@ && "edit"@ != "grep"@ && "edit"@ != "find"@ && "edit"@ != "ls"@,
        "bash"@ != "grep"@ && "bash"@ != "find"@ && "bash"@ != "ls"@,
        "grep"@ != "find"@ && "grep"@ != "ls"@,
        "find"@ != "ls"@,
{
    reveal_strlit("read");
    reveal_strlit("write");
    reveal_strlit("edit");
    reveal_strlit("bash");
    reveal_strlit("grep");
    reveal_strlit("find");
    reveal_strlit("ls");
    assert("read"@[0] == 'r');
    assert("write"@[0] == 'w');
    assert("edit"@[0] == 'e');
    assert("bash"@[0] == 'b');
    assert("grep"@[0] == 'g');
    assert("find"@[0] == 'f');
    assert("ls"@[0] == 'l');
}

/// A call of `read` or `write` is about its path: the argument `path`, or
/// `file_path` where that is missing or empty.
pub proof fn law_file_calls_are_about_their_path(name: Seq<char>, args: Tree, path: Seq<char>)
    requires
        name == "read"@ || name == "write"@,
        path.len() > 0,
    ensures
        json::text_field(args, "path"@) == Some(path) ==> call_subject(name, args) == path,
        (json::text_field(args, "path"@) is None || json::text_field(args, "path"@)->0.len() == 0)
            && json::text_field(args, "file_path"@) == Some(path) ==> call_subject(name, args)
            == path,
        json::text_field(args, "path"@) is None && json::text_field(args, "file_path"@) is None
            ==> call_subject(name, args).len() == 0,
{
}

/// A call of `edit` is about its path and the number of its edits: those that it
/// lists, or one.
pub proof fn law_edits_are_counted(args: Tree, path: Seq<char>, edits: Seq<Tree>)
    requires
        path.len() > 0,
        json::text_field(args, "path"@) == Some(path),
    ensures
        json::field(args, "edits"@) == Some(Tree::Array(edits)) && edits.len() != 1
            ==> call_subject("edit"@, args) == path + " ("@ + text::decimal(edits.len())
            + " edits)"@,
        json::field(args, "edits"@) == Some(Tree::Array(edits)) && edits.len() == 1
            ==> call_subject("edit"@, args) == path + " (1 edit)"@,
        json::field(args, "edits"@) is None ==> call_subject("edit"@, args) == path
            + " (1 edit)"@,
{
    lemma_tool_names();
    reveal_strlit("");
    reveal_strlit("s");
    reveal_strlit(")");
    reveal_strlit(" (");
    reveal_strlit(" edit");
    reveal_strlit(" edits)");
    reveal_strlit(" (1 edit)");
    let n = edit_count(args);
    if n == 1 {
        assert(text::decimal(n) =~= seq!['1']);
        assert(call_subject("edit"@, args) =~= path + " (1 edit)"@);
    } else {
        assert(call_subject("edit"@, args) =~= path + " ("@ + text::decimal(n) + " edits)"@);
    }
}

/// A call of `bash` is about its command, one of `grep` about its pattern between
/// slashes, one of `find` about its pattern and one of `ls` about its path; `grep`
/// and `find` name the path where there is one, and `ls` without one means the
/// working directory.
pub proof fn law_searches_name_pattern_and_path(
    args: Tree,
    command: Seq<char>,
    pattern: Seq<char>,
    path: Seq<char>,
)
    requires
        path.len() > 0,
    ensures
        json::text_field(args, "command"@) == Some(command) ==> call_subject("bash"@, args)
            == command,
        json::text_field(args, "pattern"@) == Some(pattern) && json::text_field(args, "path"@)
            == Some(path) ==> call_subject("grep"@, args) == "/"@ + pattern + "/"@ + " in "@ + path
            && call_subject("find"@, args) == pattern + " in "@ + path,
        json::text_field(args, "pattern"@) == Some(pattern) && json::text_field(args, "path"@)
            is None ==> call_subject("grep"@, args) == "/"@ + pattern + "/"@ && call_subject(
            "find"@,
            args,
        ) == pattern,
        json::text_field(args, "path"@) == Some(path) ==> call_subject("ls"@, args) == path,
        json::text_field(args, "path"@) is None ==> call_subject("ls"@, args) == "."@,
{
    lemma_tool_names();
}

/// A call of any other tool is about the first of its arguments that is a string.
pub proof fn law_other_calls_show_their_first_text(
    name: Seq<char>,
    before: Seq<(Seq<char>, Tree)>,
    key: Seq<char>,
    s: Seq<char>,
    after: Seq<(Seq<char>, Tree)>,
)
    requires
        name != "read"@ && name != "write"@ && name != "edit"@ && name != "bash"@ && name
            != "grep"@ && name != "find"@ && name != "ls"@,
        forall|i: int| 0 <= i < before.len() ==> !((#[trigger] before[i]).1 is Str),
    ensures
        call_subject(name, Tree::Object(before.push((key, Tree::Str(s))) + after)) == s,
        call_subject(name, Tree::Object(before)).len() == 0,
    decreases before.len(),
{
    let all = before.push((key, Tree::Str(s))) + after;
    if before.len() == 0 {
        assert(all[0] == (key, Tree::Str(s)));
    } else {
        let rest = before.drop_first();
        assert(!(before[0].1 is Str));
        assert forall|i: int| 0 <= i < rest.len() implies !((#[trigger] rest[i]).1 is Str) by {
            assert(rest[i] == before[i + 1]);
        }
        law_other_calls_show_their_first_text(name, rest, key, s, after);
        assert(all[0] == before[0]);
        assert(all.drop_first() =~= rest.push((key, Tree::Str(s))) + after);
    }
}

} // verus!
