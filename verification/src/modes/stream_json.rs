//! The `stream-json` wire: prompts that arrive as JSON lines, and the lines
//! that leave.

use vstd::prelude::*;

use crate::compat::claude;
use crate::compat::claude::{MapCtx, Run};
use crate::compat::laws;
use crate::compat::wire;
use crate::json;
use crate::json::{Json, Tree};
use crate::modes::run;
use crate::money;
use crate::text;
use crate::types::{AgentEvent, Cost, Message, Totals};

verus! {

// ---------------------------------------------------------------------------
// Input
// ---------------------------------------------------------------------------

/// The text of a content block, where it is a text block.
pub open spec fn block_text(block: Tree) -> Option<Seq<char>> {
    if json::text_field(block, "type"@) == Some("text"@) {
        json::text_field(block, "text"@)
    } else {
        None
    }
}

/// The texts of the text blocks.
pub open spec fn block_texts(blocks: Seq<Tree>) -> Seq<Seq<char>>
    decreases blocks.len(),
{
    if blocks.len() == 0 {
        Seq::empty()
    } else {
        let before = block_texts(blocks.drop_last());
        match block_text(blocks.last()) {
            Some(t) => before.push(t),
            None => before,
        }
    }
}

/// The text of a message's content: a string, or the text blocks of a list,
/// each on lines of its own. Blank text is none.
pub open spec fn content_text(content: Tree) -> Option<Seq<char>> {
    match content {
        Tree::Str(s) => if text::blank(s) {
            None
        } else {
            Some(s)
        },
        Tree::Array(blocks) => {
            let t = text::join(block_texts(blocks), "\n"@);
            if text::blank(t) {
                None
            } else {
                Some(t)
            }
        },
        _ => None,
    }
}

/// The prompt that a line carries.
pub open spec fn user_text(line: Tree) -> Option<Seq<char>> {
    match json::field(line, "message"@) {
        Some(message) => match json::field(message, "content"@) {
            Some(content) => content_text(content),
            None => None,
        },
        None => None,
    }
}

fn text_of_block(block: &Json) -> (r: Option<&str>)
    ensures
        match r {
            Some(t) => block_text(block@) == Some(t@),
            None => block_text(block@) is None,
        },
{
    match block.get_str("type") {
        Some(kind) => if text::same(kind, "text") {
            block.get_str("text")
        } else {
            None
        },
        None => None,
    }
}

/// Pulls the prompt out of a `{"type":"user","message":{..}}` line. `None`
/// where there is no text to send.
pub fn extract_user_text(value: &Json) -> (r: Option<String>)
    ensures
        text::opt_view(r) == user_text(value@),
{
    broadcast use text::lemma_views_push;

    let content = match value.get("message") {
        Some(message) => match message.get("content") {
            Some(content) => content,
            None => {
                return None;
            },
        },
        None => {
            return None;
        },
    };
    if let Some(s) = content.as_str() {
        return if text::is_blank(s) {
            None
        } else {
            Some(s.to_string())
        };
    }
    match content.as_array() {
        Some(blocks) => {
            let ghost all = json::trees(blocks@);
            let mut texts: Vec<String> = Vec::new();
            assert(text::views(texts@) =~= block_texts(all.take(0)));
            let mut i: usize = 0;
            while i < blocks.len()
                invariant
                    i <= blocks.len(),
                    all == json::trees(blocks@),
                    text::views(texts@) == block_texts(all.take(i as int)),
                decreases blocks.len() - i,
            {
                proof {
                    assert(all.take(i + 1).drop_last() =~= all.take(i as int));
                    assert(all.take(i + 1).last() == blocks@[i as int]@);
                }
                if let Some(t) = text_of_block(&blocks[i]) {
                    texts.push(t.to_string());
                }
                i = i + 1;
            }
            assert(all.take(i as int) =~= all);
            let joined = text::join_strings(&texts, "\n");
            if text::is_blank(joined.as_str()) {
                None
            } else {
                Some(joined)
            }
        },
        None => None,
    }
}

/// What a line of standard input asks for.
#[derive(Debug)]
pub enum Step {
    /// Nothing: wait for the next line.
    Wait,
    /// The end of the process.
    Close,
    /// A turn with this prompt.
    Turn(String),
}

/// The content of a [`Step`].
pub enum Asked {
    Wait,
    Close,
    Turn(Seq<char>),
}

impl View for Step {
    type V = Asked;

    open spec fn view(&self) -> Asked {
        match self {
            Step::Wait => Asked::Wait,
            Step::Close => Asked::Close,
            Step::Turn(prompt) => Asked::Turn(prompt@),
        }
    }
}

/// What a document asks for: `close` and `end` lines end the process, a line
/// with a prompt starts a turn, any other is passed over.
pub open spec fn asked_by(line: Tree) -> Asked {
    let kind = json::text_field(line, "type"@);
    if kind == Some("close"@) || kind == Some("end"@) {
        Asked::Close
    } else {
        match user_text(line) {
            Some(prompt) => Asked::Turn(prompt),
            None => Asked::Wait,
        }
    }
}

/// What a line asks for, given what was read from it. Lines that are not JSON
/// are passed over.
pub open spec fn asked_by_text(parsed: Option<Tree>) -> Asked {
    match parsed {
        Some(line) => asked_by(line),
        None => Asked::Wait,
    }
}

/// Decides what a document asks for.
pub fn step_for_value(value: &Json) -> (r: Step)
    ensures
        r@ == asked_by(value@),
{
    if let Some(kind) = value.get_str("type") {
        if text::same(kind, "close") || text::same(kind, "end") {
            return Step::Close;
        }
    }
    match extract_user_text(value) {
        Some(prompt) => Step::Turn(prompt),
        None => Step::Wait,
    }
}

/// What a line of standard input asks for, white space around it aside. A blank
/// line asks for nothing.
pub open spec fn asked_by_line(line: Seq<char>) -> Asked {
    if text::trimmed(line).len() == 0 {
        Asked::Wait
    } else {
        asked_by_text(json::json_parse(text::trimmed(line)))
    }
}

/// Decides what a line of standard input asks for.
pub fn step_for_line(line: &str) -> (r: Step)
    ensures
        r@ == asked_by_line(line@),
{
    let trimmed = text::trim(line);
    if trimmed.is_empty() {
        return Step::Wait;
    }
    match Json::parse(trimmed) {
        Some(value) => step_for_value(&value),
        None => Step::Wait,
    }
}

/// What happens to a process that serves turns from standard input.
#[derive(Debug)]
pub enum WireEvent {
    /// A line was read.
    Line(String),
    /// Standard input has ended.
    Eof,
    /// A turn has ended.
    TurnDone { had_error: bool },
}

/// What such a process does next.
#[derive(Debug)]
pub enum WireAction {
    /// Read a line.
    Read,
    /// Run a turn with this prompt.
    Turn(String),
    /// Exit with this code.
    Exit(i32),
}

/// The state of such a process.
#[derive(Debug)]
pub struct Wire {
    /// Whether a turn has failed.
    pub had_error: bool,
}

/// Whether a turn has failed, after an event.
pub open spec fn failed_after(had_error: bool, ev: WireEvent) -> bool {
    had_error || (ev matches WireEvent::TurnDone { had_error } && had_error)
}

/// Whether an action is the right answer to an event. Turns follow one another:
/// the next line is read only once a turn has ended.
pub open spec fn wire_answers(had_error: bool, ev: WireEvent, action: WireAction) -> bool {
    match ev {
        WireEvent::Line(line) => match asked_by_line(line@) {
            Asked::Wait => action is Read,
            Asked::Close => action == WireAction::Exit(run::code(had_error)),
            Asked::Turn(prompt) => action matches WireAction::Turn(p) && p@ == prompt,
        },
        WireEvent::Eof => action == WireAction::Exit(run::code(had_error)),
        WireEvent::TurnDone { .. } => action is Read,
    }
}

/// Whether an action is the right one to start with.
pub open spec fn starts_with(initial: Option<Seq<char>>, action: WireAction) -> bool {
    match initial {
        Some(prompt) => action matches WireAction::Turn(p) && p@ == prompt,
        None => action is Read,
    }
}

impl Wire {
    /// A process that has run no turn yet.
    pub fn new() -> (r: Wire)
        ensures
            !r.had_error,
    {
        Wire { had_error: false }
    }

    /// The first thing to do: the turn of a prompt from the command line, before
    /// any line is read.
    pub fn start(&self, initial: Option<String>) -> (action: WireAction)
        ensures
            starts_with(text::opt_view(initial), action),
    {
        match initial {
            Some(prompt) => WireAction::Turn(prompt),
            None => WireAction::Read,
        }
    }

    /// Takes in an event and decides what to do next.
    pub fn step(&mut self, ev: &WireEvent) -> (action: WireAction)
        ensures
            final(self).had_error == failed_after(old(self).had_error, *ev),
            wire_answers(old(self).had_error, *ev, action),
    {
        match ev {
            WireEvent::Line(line) => match step_for_line(line.as_str()) {
                Step::Wait => WireAction::Read,
                Step::Close => WireAction::Exit(run::exit_code(self.had_error)),
                Step::Turn(prompt) => WireAction::Turn(prompt),
            },
            WireEvent::Eof => WireAction::Exit(run::exit_code(self.had_error)),
            WireEvent::TurnDone { had_error } => {
                self.had_error = self.had_error || *had_error;
                WireAction::Read
            },
        }
    }
}

impl Default for Wire {
    fn default() -> (r: Wire)
        ensures
            !r.had_error,
    {
        Wire::new()
    }
}

// ---------------------------------------------------------------------------
// Output
// ---------------------------------------------------------------------------

/// The context of a process. The model and the working directory are the
/// session's, the rest comes from the command line.
pub fn make_ctx(model_id: &str, cwd: &str, session_id: &str, permission_mode: &str) -> (r: MapCtx)
    ensures
        r@ == (Run {
            session_id: session_id@,
            model: model_id@,
            cwd: cwd@,
            permission_mode: permission_mode@,
            usage: Totals::zero(),
            cost: Cost { total: money::zero_price(), so_far: money::zero_price() },
            num_turns: 0,
            final_text: Seq::empty(),
            last_stop_reason: None,
            error: None,
            failed_stop: false,
            duration_ms: 0,
        }),
{
    MapCtx::new(session_id, model_id, cwd, permission_mode)
}

/// The text of each line.
pub open spec fn line_texts(lines: Seq<Tree>) -> Seq<Seq<char>> {
    Seq::new(lines.len(), |i: int| json::json_text(json::settled(lines[i])))
}

/// The first line of the output. It reads back as what it was written from.
pub fn opening_line(ctx: &MapCtx, tools: Vec<String>) -> (r: String)
    ensures
        r@ == json::json_text(claude::system_tree(ctx@, text::views(tools@))),
        json::json_parse(r@) == Some(claude::system_tree(ctx@, text::views(tools@))),
        forall|i: int| 0 <= i < r@.len() ==> #[trigger] r@[i] != '\n',
{
    proof {
        laws::law_system_line_reads_back(ctx@, text::views(tools@));
    }
    claude::to_ndjson(&claude::system_init(ctx, tools))
}

/// The context in which an event is mapped: the end of the run stamps the
/// duration first, so that the `result` line reports it.
pub open spec fn stamped(run: Run, ev: AgentEvent, elapsed_ms: u64) -> Run {
    if ev is AgentEnd {
        Run { duration_ms: elapsed_ms, ..run }
    } else {
        run
    }
}

/// Whether a text reads back as the line that it was written for, repeated keys
/// settled.
pub open spec fn reads_back(text: Seq<char>, line: Tree) -> bool {
    json::shallow(json::settled(line), 127) ==> json::json_parse(text) == Some(
        json::settled(line),
    )
}

/// Maps one event of a turn to the lines to print. `elapsed_ms` is the time
/// since the turn began. Returns whether the turn has ended. The lines read back
/// as what they were written from; where the arguments of tool calls repeat no
/// key and are not nested too deep, exactly so.
pub fn turn_lines(ev: &AgentEvent, ctx: &mut MapCtx, elapsed_ms: u64) -> (r: (Vec<String>, bool))
    requires
        claude::countable(old(ctx)@, *ev),
    ensures
        final(ctx)@ == claude::advance(stamped(old(ctx)@, *ev, elapsed_ms), *ev),
        text::views(r.0@) == line_texts(
            claude::emitted(stamped(old(ctx)@, *ev, elapsed_ms), *ev),
        ),
        forall|k: int, i: int|
            0 <= k < r.0@.len() && 0 <= i < r.0@[k]@.len() ==> #[trigger] r.0@[k]@[i] != '\n',
        forall|k: int|
            0 <= k < r.0@.len() ==> reads_back(
                (#[trigger] r.0@[k])@,
                claude::emitted(stamped(old(ctx)@, *ev, elapsed_ms), *ev)[k],
            ),
        laws::plain_calls(*ev) ==> forall|k: int|
            0 <= k < r.0@.len() ==> json::json_parse((#[trigger] r.0@[k])@) == Some(
                claude::emitted(stamped(old(ctx)@, *ev, elapsed_ms), *ev)[k],
            ),
        r.1 == (*ev is AgentEnd),
{
    broadcast use text::lemma_views_push;

    let ended = matches!(ev, AgentEvent::AgentEnd { .. });
    if ended {
        ctx.set_duration_ms(elapsed_ms);
    }
    let ghost run = ctx@;
    let lines = claude::map_events(ev, ctx);
    let ghost goal = line_texts(claude::emitted(run, *ev));
    let ghost shapes = claude::line_trees(lines@);
    let mut out: Vec<String> = Vec::new();
    assert(text::views(out@) =~= goal.take(0));
    let mut i: usize = 0;
    while i < lines.len()
        invariant
            i <= lines.len(),
            out@.len() == i,
            shapes == claude::line_trees(lines@),
            goal == line_texts(shapes),
            text::views(out@) == goal.take(i as int),
            forall|k: int, j: int|
                0 <= k < out@.len() && 0 <= j < out@[k]@.len() ==> #[trigger] out@[k]@[j] != '\n',
            forall|k: int|
                0 <= k < out@.len() ==> reads_back((#[trigger] out@[k])@, shapes[k]),
        decreases lines.len() - i,
    {
        proof {
            text::lemma_take_push(goal, i as int);
        }
        out.push(claude::to_ndjson(&lines[i]));
        i = i + 1;
    }
    assert(goal.take(i as int) =~= goal);
    proof {
        if laws::plain_calls(*ev) {
            laws::law_lines_read_back(run, *ev);
            assert forall|k: int| 0 <= k < out@.len() implies json::json_parse(
                (#[trigger] out@[k])@,
            ) == Some(shapes[k]) by {
                let line = claude::emitted(run, *ev)[k];
                assert(laws::plain(line, 127) && json::settled(line) == line);
                assert(reads_back(out@[k]@, shapes[k]));
            }
        }
    }
    (out, ended)
}

// ---------------------------------------------------------------------------
// Laws
// ---------------------------------------------------------------------------

/// A shorthand string is taken as it is, never trimmed, and only where it is
/// not blank.
pub proof fn law_shorthand_is_taken_as_it_is(content: Seq<char>)
    ensures
        content_text(Tree::Str(content)) == (if text::trimmed(content).len() > 0 {
            Some(content)
        } else {
            None
        }),
{
    text::lemma_blank_trims_to_nothing(content);
}

/// Whether a turn has failed, after a run of events.
pub open spec fn failed_after_all(had_error: bool, events: Seq<WireEvent>) -> bool
    decreases events.len(),
{
    if events.len() == 0 {
        had_error
    } else {
        failed_after(failed_after_all(had_error, events.drop_last()), events.last())
    }
}

/// Whether an event ends the process: the end of standard input, or a line that
/// asks for it.
pub open spec fn ends_process(ev: WireEvent) -> bool {
    match ev {
        WireEvent::Eof => true,
        WireEvent::Line(line) => asked_by_line(line@) is Close,
        WireEvent::TurnDone { .. } => false,
    }
}

/// When standard input ends or a line asks for the end, the process exits with
/// 1 exactly if one of its turns has failed, whichever it was. Nothing else
/// makes it exit.
pub proof fn law_exit_code_tells_of_any_failed_turn(
    events: Seq<WireEvent>,
    ev: WireEvent,
    action: WireAction,
)
    requires
        wire_answers(failed_after_all(false, events), ev, action),
    ensures
        action is Exit <==> ends_process(ev),
        ends_process(ev) ==> (action == WireAction::Exit(1) <==> exists|i: int|
            0 <= i < events.len() && #[trigger] failed_after(false, events[i])),
        ends_process(ev) ==> action == WireAction::Exit(1) || action == WireAction::Exit(0),
{
    lemma_failed_after_all(events);
}

proof fn lemma_failed_after_all(events: Seq<WireEvent>)
    ensures
        failed_after_all(false, events) <==> exists|i: int|
            0 <= i < events.len() && #[trigger] failed_after(false, events[i]),
    decreases events.len(),
{
    if events.len() > 0 {
        let before = events.drop_last();
        lemma_failed_after_all(before);
        if failed_after_all(false, before) {
            let i = choose|i: int|
                0 <= i < before.len() && #[trigger] failed_after(false, before[i]);
            assert(failed_after(false, events[i]));
        }
        if exists|i: int| 0 <= i < events.len() && #[trigger] failed_after(false, events[i]) {
            let i = choose|i: int|
                0 <= i < events.len() && #[trigger] failed_after(false, events[i]);
            if i < before.len() {
                assert(failed_after(false, before[i]));
            } else {
                assert(events[i] == events.last());
            }
        }
        if failed_after(false, events.last()) {
            assert(failed_after(false, events[events.len() - 1]));
        }
    }
}

/// Whether an event can follow an action: a line or the end of input where one
/// is read, the end of a turn where one is run, and nothing after an exit.
pub open spec fn follows(action: WireAction, ev: WireEvent) -> bool {
    match action {
        WireAction::Read => ev is Line || ev is Eof,
        WireAction::Turn(_) => ev is TurnDone,
        WireAction::Exit(_) => false,
    }
}

/// Whether a process that starts with the given prompt can see these events and
/// do these things: it starts as it should, and each event follows the action
/// before it and is answered by the one after it.
pub open spec fn served(
    initial: Option<Seq<char>>,
    events: Seq<WireEvent>,
    actions: Seq<WireAction>,
) -> bool {
    &&& actions.len() == events.len() + 1
    &&& starts_with(initial, actions[0])
    &&& forall|i: int|
        0 <= i < events.len() ==> {
            &&& follows(actions[i], #[trigger] events[i])
            &&& wire_answers(failed_after_all(false, events.take(i)), events[i], actions[i + 1])
        }
}

/// The lines that were read.
pub open spec fn lines_read(events: Seq<WireEvent>) -> Seq<Seq<char>>
    decreases events.len(),
{
    if events.len() == 0 {
        Seq::empty()
    } else {
        let before = lines_read(events.drop_last());
        match events.last() {
            WireEvent::Line(line) => before.push(line@),
            _ => before,
        }
    }
}

/// The prompts of the turns that were run.
pub open spec fn prompts_run(actions: Seq<WireAction>) -> Seq<Seq<char>>
    decreases actions.len(),
{
    if actions.len() == 0 {
        Seq::empty()
    } else {
        let before = prompts_run(actions.drop_last());
        match actions.last() {
            WireAction::Turn(prompt) => before.push(prompt@),
            _ => before,
        }
    }
}

/// Whether one of the lines asks for the end.
pub open spec fn closed(lines: Seq<Seq<char>>) -> bool {
    exists|i: int| 0 <= i < lines.len() && #[trigger] asked_by_line(lines[i]) is Close
}

/// The prompts of the lines, in order, up to the first that asks for the end.
pub open spec fn prompts_asked(lines: Seq<Seq<char>>) -> Seq<Seq<char>>
    decreases lines.len(),
{
    if lines.len() == 0 {
        Seq::empty()
    } else {
        let before = prompts_asked(lines.drop_last());
        match asked_by_line(lines.last()) {
            Asked::Turn(prompt) if !closed(lines.drop_last()) => before.push(prompt),
            _ => before,
        }
    }
}

/// The prompt from the command line, if there is one.
pub open spec fn first_prompt(initial: Option<Seq<char>>) -> Seq<Seq<char>> {
    match initial {
        Some(prompt) => seq![prompt],
        None => Seq::empty(),
    }
}

/// Over the life of a process, the turns that are run are those of the prompt
/// from the command line and then of the lines, each once and in order, up to
/// the line that asks for the end. The first prompt is run before any line is
/// read, and nothing happens after the exit.
pub proof fn law_turns_follow_the_lines(
    initial: Option<Seq<char>>,
    events: Seq<WireEvent>,
    actions: Seq<WireAction>,
)
    requires
        served(initial, events, actions),
    ensures
        prompts_run(actions) == first_prompt(initial) + prompts_asked(lines_read(events)),
        closed(lines_read(events)) ==> actions.last() is Exit,
        initial is Some && events.len() > 0 ==> events[0] is TurnDone,
        forall|i: int| 0 <= i < events.len() ==> !(#[trigger] actions[i] is Exit),
    decreases events.len(),
{
    assert forall|i: int| 0 <= i < events.len() implies !(#[trigger] actions[i] is Exit) by {
        assert(follows(actions[i], events[i]));
    }
    let n = events.len() as int;
    if n == 0 {
        assert(prompts_run(actions.drop_last()) =~= Seq::empty());
        assert(actions.last() == actions[0]);
        assert(prompts_run(actions) =~= first_prompt(initial));
        assert(first_prompt(initial) + prompts_asked(lines_read(events)) =~= first_prompt(initial));
    } else {
        let events0 = events.drop_last();
        let actions0 = actions.drop_last();
        assert forall|i: int| 0 <= i < events0.len() implies {
            &&& follows(actions0[i], #[trigger] events0[i])
            &&& wire_answers(
                failed_after_all(false, events0.take(i)),
                events0[i],
                actions0[i + 1],
            )
        } by {
            assert(events0[i] == events[i]);
            assert(events0.take(i) =~= events.take(i));
        }
        law_turns_follow_the_lines(initial, events0, actions0);
        assert(follows(actions[n - 1], events[n - 1]));
        assert(actions0.last() == actions[n - 1]);
        assert(actions.last() == actions[n]);
        let before = lines_read(events0);
        assert(!closed(before));
        match events.last() {
            WireEvent::Line(line) => {
                let lines = before.push(line@);
                assert(lines.drop_last() =~= before);
                assert(lines_read(events) == lines);
                if asked_by_line(line@) is Close {
                    assert(asked_by_line(lines[lines.len() - 1]) is Close);
                } else {
                    assert forall|i: int| 0 <= i < lines.len() implies !(
                    #[trigger] asked_by_line(lines[i]) is Close) by {
                        if i < before.len() {
                            assert(lines[i] == before[i]);
                        }
                    }
                }
            },
            _ => {},
        }
        assert(prompts_run(actions) =~= first_prompt(initial) + prompts_asked(lines_read(events)));
    }
}

/// Blocks that are not text change nothing.
pub proof fn law_other_blocks_are_passed_over(before: Seq<Tree>, block: Tree, after: Seq<Tree>)
    requires
        block_text(block) is None,
    ensures
        block_texts(before.push(block) + after) == block_texts(before + after),
    decreases after.len(),
{
    let with = before.push(block) + after;
    let without = before + after;
    if after.len() == 0 {
        assert(with =~= before.push(block));
        assert(with.drop_last() =~= before);
        assert(without =~= before);
    } else {
        assert(with.drop_last() =~= before.push(block) + after.drop_last());
        assert(without.drop_last() =~= before + after.drop_last());
        assert(with.last() == without.last());
        law_other_blocks_are_passed_over(before, block, after.drop_last());
    }
}

/// Only a block whose type is `text` speaks, and it speaks its own text.
pub proof fn law_only_text_blocks_speak(block: Tree, t: Seq<char>)
    ensures
        json::text_field(block, "type"@) == Some("text"@) && json::text_field(block, "text"@)
            == Some(t) ==> block_texts(seq![block]) == seq![t],
        json::text_field(block, "type"@) != Some("text"@) ==> block_texts(seq![block]).len() == 0,
        json::text_field(block, "text"@) is None ==> block_texts(seq![block]).len() == 0,
{
    assert(seq![block].drop_last() =~= Seq::empty());
    assert(block_texts(Seq::empty()) =~= Seq::<Seq<char>>::empty());
    reveal_with_fuel(block_texts, 2);
    if block_text(block) is Some {
        assert(block_texts(seq![block]) =~= seq![block_text(block)->0]);
    }
}

/// The prompt of a list of text blocks is their texts, unchanged and in order,
/// with one line break between each two. One block that is not blank is taken
/// character for character.
pub proof fn law_text_blocks_are_taken_unchanged(blocks: Seq<Tree>, texts: Seq<Seq<char>>)
    requires
        blocks.len() == texts.len(),
        forall|i: int|
            0 <= i < blocks.len() ==> {
                &&& json::text_field(#[trigger] blocks[i], "type"@) == Some("text"@)
                &&& json::text_field(blocks[i], "text"@) == Some(texts[i])
            },
    ensures
        !text::blank(text::join(texts, "\n"@)) ==> content_text(Tree::Array(blocks)) == Some(
            text::join(texts, "\n"@),
        ),
        text::blank(text::join(texts, "\n"@)) ==> content_text(Tree::Array(blocks)) is None,
        texts.len() == 1 && !text::blank(texts[0]) ==> content_text(Tree::Array(blocks)) == Some(
            texts[0],
        ),
        texts.len() == 2 && !text::blank(texts[0] + "\n"@ + texts[1]) ==> content_text(
            Tree::Array(blocks),
        ) == Some(texts[0] + "\n"@ + texts[1]),
{
    lemma_all_blocks_speak(blocks, texts);
    if texts.len() == 2 {
        assert(texts.drop_last() =~= seq![texts[0]]);
        text::law_joining_keeps_the_parts(texts[0], Seq::empty(), Seq::empty(), "\n"@);
        assert(text::join(texts, "\n"@) =~= texts[0] + "\n"@ + texts[1]);
    }
}

proof fn lemma_all_blocks_speak(blocks: Seq<Tree>, texts: Seq<Seq<char>>)
    requires
        blocks.len() == texts.len(),
        forall|i: int|
            0 <= i < blocks.len() ==> {
                &&& json::text_field(#[trigger] blocks[i], "type"@) == Some("text"@)
                &&& json::text_field(blocks[i], "text"@) == Some(texts[i])
            },
    ensures
        block_texts(blocks) == texts,
    decreases blocks.len(),
{
    if blocks.len() == 0 {
        assert(texts =~= Seq::empty());
    } else {
        let before = blocks.drop_last();
        assert forall|i: int| 0 <= i < before.len() implies {
            &&& json::text_field(#[trigger] before[i], "type"@) == Some("text"@)
            &&& json::text_field(before[i], "text"@) == Some(texts.drop_last()[i])
        } by {
            assert(before[i] == blocks[i]);
        }
        lemma_all_blocks_speak(before, texts.drop_last());
        assert(blocks[blocks.len() - 1] == blocks.last());
        assert(texts =~= texts.drop_last().push(texts.last()));
    }
}

/// The prompt of a line is the content of its message: a string as it is, unless
/// it is blank. Without a message, without content, or with content that is
/// neither a string nor a list, there is none.
pub proof fn law_the_prompt_is_the_content(
    line: Tree,
    message: Tree,
    content: Tree,
    s: Seq<char>,
)
    ensures
        json::field(line, "message"@) == Some(message) && json::field(message, "content"@) == Some(
            Tree::Str(s),
        ) && !text::blank(s) ==> user_text(line) == Some(s),
        json::field(line, "message"@) == Some(message) && json::field(message, "content"@) == Some(
            Tree::Str(s),
        ) && text::blank(s) ==> user_text(line) is None,
        json::field(line, "message"@) == Some(message) && json::field(message, "content"@) == Some(
            content,
        ) ==> user_text(line) == content_text(content),
        json::field(line, "message"@) is None ==> user_text(line) is None,
        json::field(line, "message"@) == Some(message) && json::field(message, "content"@) is None
            ==> user_text(line) is None,
        !(content is Str) && !(content is Array) ==> content_text(content) is None,
{
}

/// A document asks for the end exactly if its type is `close` or `end`. Any other
/// one asks for a turn with its prompt, or for nothing where it has none.
pub proof fn law_documents_ask_for_turns(line: Tree)
    ensures
        json::text_field(line, "type"@) == Some("close"@) || json::text_field(line, "type"@)
            == Some("end"@) <==> asked_by(line) is Close,
        !(asked_by(line) is Close) ==> (match user_text(line) {
            Some(prompt) => asked_by(line) == Asked::Turn(prompt),
            None => asked_by(line) is Wait,
        }),
{
}

/// A line is read as JSON, white space around it aside. One that is blank or no
/// JSON asks for nothing.
pub proof fn law_lines_are_read_as_json(line: Seq<char>, document: Tree)
    ensures
        text::blank(line) ==> asked_by_line(line) is Wait,
        json::json_parse(text::trimmed(line)) is None ==> asked_by_line(line) is Wait,
        !text::blank(line) && json::json_parse(text::trimmed(line)) == Some(document)
            ==> asked_by_line(line) == asked_by(document),
{
    text::lemma_blank_trims_to_nothing(line);
}

/// A step asks for what it holds.
pub proof fn law_steps_show_what_they_ask(prompt: String)
    ensures
        Step::Turn(prompt)@ == Asked::Turn(prompt@),
        Step::Wait@ is Wait,
        Step::Close@ is Close,
{
}

/// A process has failed after a turn that failed, and stays so; nothing but a
/// turn changes that. A line is read after each turn.
pub proof fn law_turns_tell_of_failure(had_error: bool, failed: bool, ev: WireEvent, action: WireAction)
    ensures
        failed_after(had_error, WireEvent::TurnDone { had_error: failed }) == (had_error || failed),
        !(ev is TurnDone) ==> failed_after(had_error, ev) == had_error,
        ev is TurnDone && wire_answers(had_error, ev, action) ==> action is Read,
{
}

/// The `result` line reports the time that the turn took; until then the duration
/// of the context stands.
pub proof fn law_the_result_reports_the_time(run: Run, messages: Vec<Message>, ms: u64, ev: AgentEvent)
    ensures
        ({
            let end = AgentEvent::AgentEnd { messages };
            let line = claude::emitted(stamped(run, end, ms), end)[0];
            &&& json::field(line, "duration_ms"@) == Some(Tree::Number(json::uint_number(ms)))
            &&& json::text_field(line, "session_id"@) == Some(run.session_id)
            &&& json::field(line, "num_turns"@) == wire::count(run.num_turns)
        }),
        !(ev is AgentEnd) ==> stamped(run, ev, ms) == run,
{
    let end = AgentEvent::AgentEnd { messages };
    wire::law_result_lines_carry_the_totals(stamped(run, end, ms), messages);
}

/// Each line is printed as the JSON text of its own document.
pub proof fn law_lines_are_printed_one_by_one(lines: Seq<Tree>)
    ensures
        line_texts(lines).len() == lines.len(),
        forall|i: int|
            0 <= i < lines.len() ==> #[trigger] line_texts(lines)[i] == json::json_text(
                json::settled(lines[i]),
            ),
{
}

} // verus!
