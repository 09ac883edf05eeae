//! The outcome of a run, gathered from its events.

use vstd::prelude::*;

use crate::render;
use crate::text;
use crate::types::{AgentEvent, AssistantMessage, Cost, Message, StopReason, Totals, Usage};

verus! {

/// What a run leaves behind.
#[derive(Debug)]
pub struct RunOutcome {
    /// The transcript, once the run has ended.
    pub final_messages: Option<Vec<Message>>,
    /// Usage of the most recent turn.
    pub last_usage: Option<Usage>,
    /// Whether anything failed.
    pub had_error: bool,
}

/// Whether a finished turn failed: by its stop reason or by its error.
pub open spec fn failed_turn(message: AssistantMessage) -> bool {
    message.stop_reason == StopReason::Error || message.stop_reason == StopReason::Aborted
        || message.error_message is Some
}

/// Whether an event reports a failure.
pub open spec fn failing(ev: AgentEvent) -> bool {
    match ev {
        AgentEvent::Error(_) => true,
        AgentEvent::TurnEnd { message } => failed_turn(message),
        _ => false,
    }
}

/// The tokens that an event adds.
pub open spec fn tokens_of(ev: AgentEvent) -> Totals {
    match ev {
        AgentEvent::Usage(u) => u.tokens(),
        _ => Totals::zero(),
    }
}

/// What a run of events leaves behind.
pub struct Gathered {
    pub total: Totals,
    pub cost: Cost,
    pub last_usage: Option<Usage>,
    pub final_messages: Option<Vec<Message>>,
    pub had_error: bool,
}

/// What an outcome and a running total hold.
pub open spec fn gathered(outcome: RunOutcome, total: Usage) -> Gathered {
    Gathered {
        total: total.tokens(),
        cost: total.cost,
        last_usage: outcome.last_usage,
        final_messages: outcome.final_messages,
        had_error: outcome.had_error,
    }
}

/// Takes in one event.
pub open spec fn gather(g: Gathered, ev: AgentEvent) -> Gathered {
    Gathered {
        total: g.total.plus(tokens_of(ev)),
        cost: match ev {
            AgentEvent::Usage(u) => u.cost.summed(),
            _ => g.cost,
        },
        last_usage: match ev {
            AgentEvent::Usage(u) => Some(u),
            _ => g.last_usage,
        },
        final_messages: match ev {
            AgentEvent::AgentEnd { messages } => Some(messages),
            _ => g.final_messages,
        },
        had_error: g.had_error || failing(ev),
    }
}

/// Adds a turn's usage to a running total and remembers it as the most recent.
pub fn record_turn_usage(total: &mut Usage, last: &mut Option<Usage>, u: &Usage)
    requires
        old(total).tokens().plus(u.tokens()).fits(),
    ensures
        final(total).tokens() == old(total).tokens().plus(u.tokens()),
        final(total).cost == u.cost.summed(),
        *final(last) == Some(*u),
{
    total.add(u);
    *last = Some(u.clone());
}

/// The transcript to keep: that of the run if it ended, else the current one.
pub fn transcript<M>(ended: Option<Vec<M>>, current: Vec<M>) -> (r: Vec<M>)
    ensures
        r == (match ended {
            Some(messages) => messages,
            None => current,
        }),
{
    match ended {
        Some(messages) => messages,
        None => current,
    }
}

impl RunOutcome {
    /// Nothing happened yet.
    pub fn new() -> (r: RunOutcome)
        ensures
            r.final_messages is None,
            r.last_usage is None,
            !r.had_error,
    {
        RunOutcome { final_messages: None, last_usage: None, had_error: false }
    }

    /// Takes in one event. `total` is the running total of the session. Returns
    /// whether the run has ended.
    pub fn observe(&mut self, total: &mut Usage, ev: AgentEvent) -> (ended: bool)
        requires
            old(total).tokens().plus(tokens_of(ev)).fits(),
        ensures
            ended == (ev is AgentEnd),
            gathered(*final(self), *final(total)) == gather(gathered(*old(self), *old(total)), ev),
    {
        match ev {
            AgentEvent::Usage(u) => {
                record_turn_usage(total, &mut self.last_usage, &u);
                false
            },
            AgentEvent::AgentEnd { messages } => {
                self.final_messages = Some(messages);
                true
            },
            AgentEvent::Error(_) => {
                self.had_error = true;
                false
            },
            AgentEvent::TurnEnd { message } => {
                if message.stop_reason == StopReason::Error || message.stop_reason
                    == StopReason::Aborted || message.error_message.is_some() {
                    self.had_error = true;
                }
                false
            },
            _ => false,
        }
    }

    /// The transcript to keep: that of the run if it ended, else the current
    /// one.
    pub fn take_transcript(&mut self, current: Vec<Message>) -> (r: Vec<Message>)
        ensures
            r == (match old(self).final_messages {
                Some(messages) => messages,
                None => current,
            }),
            final(self).final_messages is None,
            final(self).last_usage == old(self).last_usage,
            final(self).had_error == old(self).had_error,
    {
        transcript(self.final_messages.take(), current)
    }
}

impl Default for RunOutcome {
    fn default() -> (r: RunOutcome)
        ensures
            r.final_messages is None,
            r.last_usage is None,
            !r.had_error,
    {
        RunOutcome::new()
    }
}

/// The exit code of a process: 1 if anything failed.
pub open spec fn code(had_error: bool) -> i32 {
    if had_error {
        1
    } else {
        0
    }
}

/// The exit code of the process.
pub fn exit_code(had_error: bool) -> (r: i32)
    ensures
        r == code(had_error),
{
    if had_error {
        1
    } else {
        0
    }
}

/// The notice after an automatic compaction.
pub open spec fn compaction_text(dropped: nat, colors: bool) -> Option<Seq<char>> {
    if dropped > 0 {
        Some(
            render::styled(
                "2"@,
                "  ↳ context near limit: compacted "@ + text::decimal(dropped) + " message(s)"@,
                colors,
            ),
        )
    } else {
        None
    }
}

/// The notice after an automatic compaction; none where nothing was dropped.
pub fn compaction_notice(dropped: usize, colors: bool) -> (r: Option<String>)
    ensures
        text::opt_view(r) == (if dropped > 0 {
            Some(
                render::styled(
                    "2"@,
                    "  ↳ context near limit: compacted "@ + text::decimal(dropped as nat)
                        + " message(s)"@,
                    colors,
                ),
            )
        } else {
            None
        }),
        text::opt_view(r) == compaction_text(dropped as nat, colors),
{
    if dropped > 0 {
        let mut s = "  ↳ context near limit: compacted ".to_string();
        s.append(text::decimal_string(dropped as u64).as_str());
        s.append(" message(s)");
        Some(render::dim(s.as_str(), colors))
    } else {
        None
    }
}

// ---------------------------------------------------------------------------
// Laws
// ---------------------------------------------------------------------------

/// Takes in a run of events.
pub open spec fn gather_all(g: Gathered, events: Seq<AgentEvent>) -> Gathered
    decreases events.len(),
{
    if events.len() == 0 {
        g
    } else {
        gather(gather_all(g, events.drop_last()), events.last())
    }
}

/// The sum of the tokens of a run of events.
pub open spec fn tokens_of_all(events: Seq<AgentEvent>) -> Totals
    decreases events.len(),
{
    if events.len() == 0 {
        Totals::zero()
    } else {
        tokens_of_all(events.drop_last()).plus(tokens_of(events.last()))
    }
}

/// The running total counts every turn, not just the last.
pub proof fn law_every_turn_counts(g: Gathered, events: Seq<AgentEvent>)
    ensures
        gather_all(g, events).total == g.total.plus(tokens_of_all(events)),
    decreases events.len(),
{
    if events.len() > 0 {
        law_every_turn_counts(g, events.drop_last());
    }
}

/// A run is marked as failed exactly when one of its events reports a failure.
pub proof fn law_failed_exactly_if_some_event_fails(g: Gathered, events: Seq<AgentEvent>)
    ensures
        gather_all(g, events).had_error <==> g.had_error || exists|i: int|
            0 <= i < events.len() && failing(#[trigger] events[i]),
    decreases events.len(),
{
    if events.len() > 0 {
        let before = events.drop_last();
        law_failed_exactly_if_some_event_fails(g, before);
        if exists|i: int| 0 <= i < before.len() && failing(#[trigger] before[i]) {
            let i = choose|i: int| 0 <= i < before.len() && failing(#[trigger] before[i]);
            assert(failing(events[i]));
        }
        if exists|i: int| 0 <= i < events.len() && failing(#[trigger] events[i]) {
            let i = choose|i: int| 0 <= i < events.len() && failing(#[trigger] events[i]);
            if i < before.len() {
                assert(failing(before[i]));
            }
        }
        if failing(events.last()) {
            assert(failing(events[events.len() - 1]));
        }
    }
}

/// The usage of the most recent turn is that of the last usage event.
pub proof fn law_last_usage_is_the_latest(
    g: Gathered,
    events: Seq<AgentEvent>,
    u: Usage,
    rest: Seq<AgentEvent>,
)
    requires
        forall|i: int| 0 <= i < rest.len() ==> !(#[trigger] rest[i] is Usage),
    ensures
        gather_all(g, events.push(AgentEvent::Usage(u)) + rest).last_usage == Some(u),
    decreases rest.len(),
{
    let all = events.push(AgentEvent::Usage(u)) + rest;
    if rest.len() == 0 {
        assert(all =~= events.push(AgentEvent::Usage(u)));
        assert(all.last() == AgentEvent::Usage(u));
    } else {
        assert(all.drop_last() =~= events.push(AgentEvent::Usage(u)) + rest.drop_last());
        assert(all.last() == rest.last());
        assert(!(rest[rest.len() - 1] is Usage));
        law_last_usage_is_the_latest(g, events, u, rest.drop_last());
    }
}

/// The transcript of the last run end.
pub open spec fn last_transcript(events: Seq<AgentEvent>) -> Option<Vec<Message>>
    decreases events.len(),
{
    if events.len() == 0 {
        None
    } else {
        match events.last() {
            AgentEvent::AgentEnd { messages } => Some(messages),
            _ => last_transcript(events.drop_last()),
        }
    }
}

/// After a run of events the transcript is that of the last run end. Without
/// one there is none, and what was there before stays.
pub proof fn law_transcript_is_that_of_the_last_end(g: Gathered, events: Seq<AgentEvent>)
    ensures
        gather_all(g, events).final_messages == (if last_transcript(events) is Some {
            last_transcript(events)
        } else {
            g.final_messages
        }),
        last_transcript(events) is None <==> forall|i: int|
            0 <= i < events.len() ==> !(#[trigger] events[i] is AgentEnd),
    decreases events.len(),
{
    if events.len() > 0 {
        let before = events.drop_last();
        law_transcript_is_that_of_the_last_end(g, before);
        assert(events.last() == events[events.len() - 1]);
        if last_transcript(events) is None {
            assert forall|i: int| 0 <= i < events.len() implies !(#[trigger] events[i]
                is AgentEnd) by {
                if i < before.len() {
                    assert(before[i] == events[i]);
                }
            }
        } else if !(events.last() is AgentEnd) {
            let i = choose|i: int| 0 <= i < before.len() && before[i] is AgentEnd;
            assert(events[i] is AgentEnd);
        }
    }
}

/// Before any event nothing is remembered, so the transcript after a whole run
/// is none exactly where the run has not ended.
pub proof fn law_no_transcript_without_an_end(total: Usage, events: Seq<AgentEvent>)
    ensures
        ({
            let fresh = RunOutcome { final_messages: None, last_usage: None, had_error: false };
            gather_all(gathered(fresh, total), events).final_messages == last_transcript(events)
        }),
{
    let fresh = RunOutcome { final_messages: None, last_usage: None, had_error: false };
    law_transcript_is_that_of_the_last_end(gathered(fresh, total), events);
}

/// An event is a failure exactly if it is an error, or the end of a turn that
/// stopped with an error, was aborted or carries an error text.
pub proof fn law_failures_are_errors_and_failed_turns(
    msg: String,
    message: AssistantMessage,
    other: AgentEvent,
)
    ensures
        failing(AgentEvent::Error(msg)),
        message.stop_reason == StopReason::Error || message.stop_reason == StopReason::Aborted
            || message.error_message is Some <==> failing(AgentEvent::TurnEnd { message }),
        !(other is Error) && !(other is TurnEnd) ==> !failing(other),
{
}

/// A usage event adds each count to the total of that kind, takes over the price
/// and is remembered whole; no other event changes any of these.
pub proof fn law_usage_is_added_count_by_count(g: Gathered, u: Usage, other: AgentEvent)
    requires
        !(other is Usage),
    ensures
        ({
            let next = gather(g, AgentEvent::Usage(u));
            &&& next.total.input == g.total.input + u.input
            &&& next.total.output == g.total.output + u.output
            &&& next.total.cache_read == g.total.cache_read + u.cache_read
            &&& next.total.cache_write == g.total.cache_write + u.cache_write
            &&& next.cost.total == u.cost.so_far
            &&& next.last_usage == Some(u)
            &&& next.had_error == g.had_error
            &&& next.final_messages == g.final_messages
        }),
        gather(g, other).total == g.total,
        gather(g, other).cost == g.cost,
        gather(g, other).last_usage == g.last_usage,
{
}

/// The end of a run hands over its transcript; no other event touches it.
pub proof fn law_ends_hand_over_the_transcript(
    g: Gathered,
    messages: Vec<Message>,
    other: AgentEvent,
)
    requires
        !(other is AgentEnd),
    ensures
        gather(g, AgentEvent::AgentEnd { messages }).final_messages == Some(messages),
        gather(g, other).final_messages == g.final_messages,
{
}

/// What is gathered is what the outcome and the running total hold.
pub proof fn law_outcomes_show_their_fields(outcome: RunOutcome, total: Usage)
    ensures
        ({
            let g = gathered(outcome, total);
            &&& g.total.input == total.input && g.total.output == total.output
            &&& g.total.cache_read == total.cache_read && g.total.cache_write
                == total.cache_write
            &&& g.cost == total.cost
            &&& g.had_error == outcome.had_error
            &&& g.last_usage == outcome.last_usage
            &&& g.final_messages == outcome.final_messages
        }),
{
}

/// A process that failed exits with 1, any other with 0.
pub proof fn law_exit_codes()
    ensures
        code(true) == 1,
        code(false) == 0,
{
}

/// A compaction is announced with the number of messages it dropped, exactly if
/// there was one.
pub proof fn law_compactions_are_announced(dropped: nat, colors: bool)
    ensures
        dropped == 0 <==> compaction_text(dropped, colors) is None,
        dropped > 0 ==> compaction_text(dropped, colors) == Some(
            render::styled(
                "2"@,
                "  ↳ context near limit: compacted "@ + text::decimal(dropped) + " message(s)"@,
                colors,
            ),
        ),
{
}

/// Counts can be added as long as each sum fits a machine word.
pub proof fn law_counts_that_fit_can_be_added(a: Usage, b: Usage)
    ensures
        a.tokens().plus(b.tokens()).fits() <==> a.input + b.input <= u64::MAX && a.output
            + b.output <= u64::MAX && a.cache_read + b.cache_read <= u64::MAX && a.cache_write
            + b.cache_write <= u64::MAX,
        a.cost.summed().total == a.cost.so_far,
        a.cost.summed().so_far == a.cost.so_far,
        tokens_of(AgentEvent::Other) == Totals::zero(),
        Totals::zero().input == 0 && Totals::zero().output == 0 && Totals::zero().cache_read == 0
            && Totals::zero().cache_write == 0,
{
}

} // verus!
