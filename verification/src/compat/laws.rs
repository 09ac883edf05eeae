//! What holds of the mapping over whole runs.

use vstd::prelude::*;

use crate::compat::claude;
use crate::compat::claude::Run;
use crate::json;
use crate::json::Tree;
use crate::money;
use crate::types::{
    AgentEvent, AssistantMessage, ContentBlock, Cost, Message, ToolResultMessage, Totals,
};

verus! {

/// The context after a run of events.
pub open spec fn after(run: Run, events: Seq<AgentEvent>) -> Run
    decreases events.len(),
{
    if events.len() == 0 {
        run
    } else {
        claude::advance(after(run, events.drop_last()), events.last())
    }
}

/// The lines of a run of events.
pub open spec fn output(run: Run, events: Seq<AgentEvent>) -> Seq<Tree>
    decreases events.len(),
{
    if events.len() == 0 {
        Seq::empty()
    } else {
        output(run, events.drop_last()) + claude::emitted(
            after(run, events.drop_last()),
            events.last(),
        )
    }
}

/// The kind of a line.
pub open spec fn kind(line: Tree) -> Option<Seq<char>> {
    json::text_field(line, "type"@)
}

/// The kinds of line that an event produces.
pub open spec fn kinds_of(ev: AgentEvent) -> Seq<Seq<char>> {
    match ev {
        AgentEvent::MessageEnd(Message::Assistant(_)) => seq!["assistant"@],
        AgentEvent::MessageEnd(Message::ToolResult(_)) => seq!["user"@],
        AgentEvent::AgentEnd { .. } => seq!["result"@],
        _ => Seq::empty(),
    }
}

/// The kinds of line that a run of events produces.
pub open spec fn kinds(events: Seq<AgentEvent>) -> Seq<Seq<char>>
    decreases events.len(),
{
    if events.len() == 0 {
        Seq::empty()
    } else {
        kinds(events.drop_last()) + kinds_of(events.last())
    }
}

proof fn lemma_message_line_keys(kind: Seq<char>, message: Tree, session_id: Seq<char>)
    ensures
        json::distinct_keys(
            seq![
                claude::text_entry("type"@, kind),
                ("message"@, message),
                claude::text_entry("session_id"@, session_id),
            ],
        ),
{
    reveal_strlit("type");
    reveal_strlit("message");
    reveal_strlit("session_id");
    assert("type"@.len() == 4);
    assert("message"@.len() == 7);
    assert("session_id"@.len() == 10);
}

/// The keys of a `result` line are distinct.
pub proof fn lemma_result_line_keys(run: Run)
    ensures
        json::distinct_keys(claude::result_tree(run)->Object_0),
{
    reveal_strlit("type");
    reveal_strlit("subtype");
    reveal_strlit("is_error");
    reveal_strlit("result");
    reveal_strlit("session_id");
    reveal_strlit("total_cost_usd");
    reveal_strlit("duration_ms");
    reveal_strlit("num_turns");
    reveal_strlit("model");
    reveal_strlit("stop_reason");
    reveal_strlit("usage");
    reveal_strlit("modelUsage");
    assert("type"@.len() == 4);
    assert("subtype"@.len() == 7);
    assert("is_error"@.len() == 8);
    assert("result"@.len() == 6);
    assert("session_id"@.len() == 10);
    assert("total_cost_usd"@.len() == 14);
    assert("duration_ms"@.len() == 11);
    assert("num_turns"@.len() == 9);
    assert("model"@.len() == 5);
    assert("stop_reason"@.len() == 11);
    assert("usage"@.len() == 5);
    assert("modelUsage"@.len() == 10);
    assert("session_id"@[0] == 's');
    assert("modelUsage"@[0] == 'm');
    assert("duration_ms"@[0] == 'd');
    assert("stop_reason"@[0] == 's');
    assert("model"@[0] == 'm');
    assert("usage"@[0] == 'u');
}

proof fn lemma_emitted(run: Run, ev: AgentEvent)
    ensures
        claude::emitted(run, ev).len() == kinds_of(ev).len(),
        forall|i: int|
            0 <= i < kinds_of(ev).len() ==> {
                &&& kind(#[trigger] claude::emitted(run, ev)[i]) == Some(kinds_of(ev)[i])
                &&& json::text_field(claude::emitted(run, ev)[i], "session_id"@) == Some(
                    run.session_id,
                )
            },
{
    match ev {
        AgentEvent::MessageEnd(Message::Assistant(a)) => {
            let entries = claude::assistant_tree(run, a)->Object_0;
            lemma_message_line_keys(
                "assistant"@,
                claude::assistant_message_tree(run, a),
                run.session_id,
            );
            json::lemma_lookup_at(entries, 0);
            json::lemma_lookup_at(entries, 2);
        },
        AgentEvent::MessageEnd(Message::ToolResult(t)) => {
            let entries = claude::tool_result_tree(run, t)->Object_0;
            lemma_message_line_keys(
                "user"@,
                claude::tool_result_message_tree(t),
                run.session_id,
            );
            json::lemma_lookup_at(entries, 0);
            json::lemma_lookup_at(entries, 2);
        },
        AgentEvent::AgentEnd { messages } => {
            let last = claude::closing(run, messages@);
            let entries = claude::result_tree(last)->Object_0;
            lemma_result_line_keys(last);
            json::lemma_lookup_at(entries, 0);
            json::lemma_lookup_at(entries, 4);
        },
        _ => {},
    }
}

/// A run prints one `assistant` line per assistant message, one `user` line per
/// tool result and one `result` line per run end, in the order of the events,
/// and nothing else. A prompt is never echoed.
pub proof fn law_lines_follow_events(run: Run, events: Seq<AgentEvent>)
    ensures
        output(run, events).len() == kinds(events).len(),
        forall|i: int|
            0 <= i < kinds(events).len() ==> kind(#[trigger] output(run, events)[i]) == Some(
                kinds(events)[i],
            ),
    decreases events.len(),
{
    if events.len() > 0 {
        law_lines_follow_events(run, events.drop_last());
        lemma_emitted(after(run, events.drop_last()), events.last());
        let lines = claude::emitted(after(run, events.drop_last()), events.last());
        let start = kinds(events.drop_last()).len() as int;
        assert forall|i: int| 0 <= i < kinds(events).len() implies kind(
            #[trigger] output(run, events)[i],
        ) == Some(kinds(events)[i]) by {
            if i < start {
                assert(output(run, events)[i] == output(run, events.drop_last())[i]);
            } else {
                assert(output(run, events)[i] == lines[i - start]);
            }
        }
    }
}

/// A turn ends with exactly one `result` line: it is the last line, and no line
/// before it is one.
pub proof fn law_one_result_per_turn(run: Run, events: Seq<AgentEvent>, end: AgentEvent)
    requires
        forall|i: int| 0 <= i < events.len() ==> !(#[trigger] events[i] is AgentEnd),
        end is AgentEnd,
    ensures
        output(run, events.push(end)).len() > 0,
        kind(output(run, events.push(end)).last()) == Some("result"@),
        output(run, events.push(end)).last() == claude::result_tree(
            claude::closing(after(run, events), end->messages@),
        ),
        forall|i: int|
            0 <= i < output(run, events.push(end)).len() - 1 ==> kind(
                #[trigger] output(run, events.push(end))[i],
            ) != Some("result"@),
{
    let all = events.push(end);
    assert(all.drop_last() =~= events);
    law_lines_follow_events(run, all);
    lemma_no_result(events);
    assert(kinds(all) =~= kinds(events).push("result"@));
    assert forall|i: int| 0 <= i < output(run, all).len() - 1 implies kind(
        #[trigger] output(run, all)[i],
    ) != Some("result"@) by {
        assert(kinds(all)[i] == kinds(events)[i]);
    }
}

proof fn lemma_no_result(events: Seq<AgentEvent>)
    requires
        forall|i: int| 0 <= i < events.len() ==> !(#[trigger] events[i] is AgentEnd),
    ensures
        forall|i: int| 0 <= i < kinds(events).len() ==> #[trigger] kinds(events)[i] != "result"@,
    decreases events.len(),
{
    reveal_strlit("result");
    reveal_strlit("user");
    reveal_strlit("assistant");
    assert("result"@.len() == 6);
    assert("user"@.len() == 4);
    assert("assistant"@.len() == 9);
    if events.len() > 0 {
        assert(!(events.last() is AgentEnd));
        let before = kinds(events.drop_last());
        lemma_no_result(events.drop_last());
        assert forall|i: int| 0 <= i < kinds(events).len() implies #[trigger] kinds(events)[i]
            != "result"@ by {
            if i < before.len() {
                assert(kinds(events)[i] == before[i]);
            } else {
                assert(kinds(events)[i] == kinds_of(events.last())[i - before.len()]);
            }
        }
    }
}

/// Every line carries the session id of the run.
pub proof fn law_session_id_in_every_line(run: Run, events: Seq<AgentEvent>)
    ensures
        forall|i: int|
            0 <= i < output(run, events).len() ==> json::text_field(
                #[trigger] output(run, events)[i],
                "session_id"@,
            ) == Some(run.session_id),
    decreases events.len(),
{
    if events.len() > 0 {
        let before = events.drop_last();
        law_session_id_in_every_line(run, before);
        law_identity_never_changes(run, before);
        lemma_emitted(after(run, before), events.last());
        let lines = claude::emitted(after(run, before), events.last());
        let start = output(run, before).len() as int;
        assert forall|i: int| 0 <= i < output(run, events).len() implies json::text_field(
            #[trigger] output(run, events)[i],
            "session_id"@,
        ) == Some(run.session_id) by {
            if i < start {
                assert(output(run, events)[i] == output(run, before)[i]);
            } else {
                assert(output(run, events)[i] == lines[i - start]);
            }
        }
    }
}

/// Events change neither who runs nor where, nor the stamped duration.
pub proof fn law_identity_never_changes(run: Run, events: Seq<AgentEvent>)
    ensures
        after(run, events).session_id == run.session_id,
        after(run, events).model == run.model,
        after(run, events).cwd == run.cwd,
        after(run, events).permission_mode == run.permission_mode,
        after(run, events).duration_ms == run.duration_ms,
    decreases events.len(),
{
    if events.len() > 0 {
        law_identity_never_changes(run, events.drop_last());
    }
}

/// The sum of the usage events.
pub open spec fn usage_sum(events: Seq<AgentEvent>) -> Totals
    decreases events.len(),
{
    if events.len() == 0 {
        Totals::zero()
    } else {
        match events.last() {
            AgentEvent::Usage(u) => usage_sum(events.drop_last()).plus(u.tokens()),
            _ => usage_sum(events.drop_last()),
        }
    }
}

/// How many assistant messages ended.
pub open spec fn turns(events: Seq<AgentEvent>) -> nat
    decreases events.len(),
{
    if events.len() == 0 {
        0
    } else {
        turns(events.drop_last()) + (if events.last() matches AgentEvent::MessageEnd(
            Message::Assistant(_),
        ) {
            1nat
        } else {
            0nat
        })
    }
}

/// The context counts every usage event and every assistant message.
pub proof fn law_totals_count_every_turn(run: Run, events: Seq<AgentEvent>)
    ensures
        after(run, events).usage == run.usage.plus(usage_sum(events)),
        after(run, events).num_turns == run.num_turns + turns(events),
    decreases events.len(),
{
    if events.len() > 0 {
        law_totals_count_every_turn(run, events.drop_last());
    }
}

/// The last sum of the prices that a run of events reports.
pub open spec fn last_cost(cost: Cost, events: Seq<AgentEvent>) -> Cost
    decreases events.len(),
{
    if events.len() == 0 {
        cost
    } else {
        match events.last() {
            AgentEvent::Usage(u) => u.cost.summed(),
            _ => last_cost(cost, events.drop_last()),
        }
    }
}

/// The price of the context is the last sum that was reported.
pub proof fn law_cost_is_the_last_sum(run: Run, events: Seq<AgentEvent>)
    ensures
        after(run, events).cost == last_cost(run.cost, events),
    decreases events.len(),
{
    if events.len() > 0 {
        law_cost_is_the_last_sum(run, events.drop_last());
    }
}

/// The failure that an event reports.
pub open spec fn failure(ev: AgentEvent) -> Option<Seq<char>> {
    match ev {
        AgentEvent::Error(msg) => Some(msg@),
        AgentEvent::MessageEnd(Message::Assistant(a)) => crate::text::opt_view(a.error_message),
        _ => None,
    }
}

/// The last failure that a run of events reports.
pub open spec fn last_failure(events: Seq<AgentEvent>) -> Option<Seq<char>>
    decreases events.len(),
{
    if events.len() == 0 {
        None
    } else if failure(events.last()) is Some {
        failure(events.last())
    } else {
        last_failure(events.drop_last())
    }
}

/// Whether an event is the end of an assistant message that stopped for a
/// failure.
pub open spec fn stops_failed(ev: AgentEvent) -> bool {
    ev matches AgentEvent::MessageEnd(Message::Assistant(a)) && claude::failed_stop(a.stop_reason)
}

/// Whether some message since the last run end, or since the start, stopped for
/// a failure.
pub open spec fn any_failed_stop(events: Seq<AgentEvent>) -> bool {
    stop_pending(false, events)
}

/// Whether a failed stop is still to be reported after a run of events.
pub open spec fn stop_pending(pending: bool, events: Seq<AgentEvent>) -> bool
    decreases events.len(),
{
    if events.len() == 0 {
        pending
    } else if events.last() is AgentEnd {
        false
    } else {
        stops_failed(events.last()) || stop_pending(pending, events.drop_last())
    }
}

/// Whether a run of events has failed: with an error, or by a stop reason.
pub open spec fn any_failure(events: Seq<AgentEvent>) -> bool {
    last_failure(events) is Some || any_failed_stop(events)
}

/// The context remembers the last error, and forgets none. That a message stopped
/// for a failure it remembers until the run ends.
pub proof fn law_last_failure_stays(run: Run, events: Seq<AgentEvent>)
    ensures
        after(run, events).error == (if last_failure(events) is Some {
            last_failure(events)
        } else {
            run.error
        }),
        after(run, events).failed_stop == stop_pending(run.failed_stop, events),
    decreases events.len(),
{
    if events.len() > 0 {
        law_last_failure_stays(run, events.drop_last());
    }
}

/// The last text among the assistant messages that ended.
pub open spec fn last_spoken(events: Seq<AgentEvent>) -> Seq<char>
    decreases events.len(),
{
    if events.len() == 0 {
        Seq::empty()
    } else {
        match events.last() {
            AgentEvent::MessageEnd(Message::Assistant(a)) if claude::text_of(a).len() > 0 =>
                claude::text_of(a),
            _ => last_spoken(events.drop_last()),
        }
    }
}

/// As long as the run goes on, the text of the context is the last one spoken.
pub proof fn law_final_text_is_last_spoken(run: Run, events: Seq<AgentEvent>)
    requires
        forall|i: int| 0 <= i < events.len() ==> !(#[trigger] events[i] is AgentEnd),
    ensures
        after(run, events).final_text == (if last_spoken(events).len() > 0 {
            last_spoken(events)
        } else {
            run.final_text
        }),
    decreases events.len(),
{
    if events.len() > 0 {
        assert(!(events.last() is AgentEnd));
        law_final_text_is_last_spoken(run, events.drop_last());
    }
}

/// The `result` line of a fresh turn is an error exactly if an event reported
/// one or a message stopped for a failure. Its text is the last error, and where
/// there was none the last text spoken, or else the last text of the transcript.
pub proof fn law_result_reports_the_turn(run: Run, events: Seq<AgentEvent>, end: AgentEvent)
    requires
        !claude::failed(run),
        run.final_text.len() == 0,
        forall|i: int| 0 <= i < events.len() ==> !(#[trigger] events[i] is AgentEnd),
        end is AgentEnd,
    ensures
        ({
            let line = output(run, events.push(end)).last();
            &&& json::field(line, "is_error"@) == Some(Tree::Bool(any_failure(events)))
            &&& json::text_field(line, "subtype"@) == Some(
                if any_failure(events) {
                    "error"@
                } else {
                    "success"@
                },
            )
            &&& json::text_field(line, "result"@) == Some(
                if last_failure(events) is Some {
                    last_failure(events)->0
                } else if last_spoken(events).len() > 0 {
                    last_spoken(events)
                } else {
                    claude::last_text(end->messages@)
                },
            )
            &&& json::field(line, "total_cost_usd"@) == Some(
                money::price_tree(last_cost(run.cost, events).total),
            )
            &&& json::field(line, "usage"@) == Some(
                claude::usage_tree(run.usage.plus(usage_sum(events))),
            )
            &&& json::field(line, "num_turns"@) == Some(
                Tree::Number(json::uint_number((run.num_turns + turns(events)) as u64)),
            )
        }),
{
    let all = events.push(end);
    assert(all.drop_last() =~= events);
    law_one_result_per_turn(run, events, end);
    law_last_failure_stays(run, events);
    law_final_text_is_last_spoken(run, events);
    law_totals_count_every_turn(run, events);
    law_cost_is_the_last_sum(run, events);
    let last = claude::closing(after(run, events), end->messages@);
    let entries = claude::result_tree(last)->Object_0;
    lemma_result_line_keys(last);
    json::lemma_lookup_at(entries, 1);
    json::lemma_lookup_at(entries, 2);
    json::lemma_lookup_at(entries, 3);
    json::lemma_lookup_at(entries, 5);
    json::lemma_lookup_at(entries, 7);
    json::lemma_lookup_at(entries, entries.len() - 2);
}

/// A message that stopped for a failure makes the `result` line of its turn an
/// error, with or without an error text.
pub proof fn law_failed_stops_surface(
    run: Run,
    before: Seq<AgentEvent>,
    a: AssistantMessage,
    between: Seq<AgentEvent>,
    end: AgentEvent,
)
    requires
        claude::failed_stop(a.stop_reason),
        forall|i: int| 0 <= i < between.len() ==> !(#[trigger] between[i] is AgentEnd),
        end is AgentEnd,
    ensures
        ({
            let ended = AgentEvent::MessageEnd(Message::Assistant(a));
            let line = output(run, (before.push(ended) + between).push(end)).last();
            &&& json::field(line, "is_error"@) == Some(Tree::Bool(true))
            &&& json::text_field(line, "subtype"@) == Some("error"@)
        }),
{
    let ended = AgentEvent::MessageEnd(Message::Assistant(a));
    let events = before.push(ended) + between;
    let all = events.push(end);
    assert(all.drop_last() =~= events);
    law_last_failure_stays(run, events);
    lemma_failed_stop_counts(run.failed_stop, before, ended, between);
    let last = claude::closing(after(run, events), end->messages@);
    let entries = claude::result_tree(last)->Object_0;
    assert(output(run, all).last() == claude::result_tree(last));
    lemma_result_line_keys(last);
    json::lemma_lookup_at(entries, 1);
    json::lemma_lookup_at(entries, 2);
}

/// A message that stopped for a failure says nothing of later turns: with the
/// run's end it is forgotten.
pub proof fn law_failed_stops_end_with_their_turn(
    run: Run,
    events: Seq<AgentEvent>,
    end: AgentEvent,
)
    requires
        end is AgentEnd,
    ensures
        !after(run, events.push(end)).failed_stop,
        after(run, events.push(end)).error == after(run, events).error,
{
    assert(events.push(end).drop_last() =~= events);
}

proof fn lemma_failed_stop_counts(
    pending: bool,
    before: Seq<AgentEvent>,
    ev: AgentEvent,
    between: Seq<AgentEvent>,
)
    requires
        stops_failed(ev),
        forall|i: int| 0 <= i < between.len() ==> !(#[trigger] between[i] is AgentEnd),
    ensures
        stop_pending(pending, before.push(ev) + between),
    decreases between.len(),
{
    let events = before.push(ev) + between;
    if between.len() > 0 {
        assert(!(between[between.len() - 1] is AgentEnd));
        assert(events.last() == between.last());
        lemma_failed_stop_counts(pending, before, ev, between.drop_last());
        assert(events.drop_last() =~= before.push(ev) + between.drop_last());
    }
}

/// Whether a document repeats no key and is nested at most `limit` deep, so
/// that its text reads back as the same document.
pub open spec fn plain(tree: Tree, limit: nat) -> bool {
    json::keyed(tree) && json::shallow(tree, limit)
}

proof fn lemma_shallow_within(tree: Tree, low: nat, high: nat)
    requires
        json::shallow(tree, low),
        low <= high,
    ensures
        json::shallow(tree, high),
    decreases tree,
{
    match tree {
        Tree::Array(items) => {
            assert forall|i: int| 0 <= i < items.len() implies json::shallow(
                #[trigger] items[i],
                (high - 1) as nat,
            ) by {
                lemma_shallow_within(items[i], (low - 1) as nat, (high - 1) as nat);
            }
        },
        Tree::Object(entries) => {
            assert forall|i: int| 0 <= i < entries.len() implies json::shallow(
                (#[trigger] entries[i]).1,
                (high - 1) as nat,
            ) by {
                assert(decreases_to!(tree => tree->Object_0));
                assert(decreases_to!(entries => entries[i]));
                assert(decreases_to!(entries[i] => entries[i].1));
                lemma_shallow_within(entries[i].1, (low - 1) as nat, (high - 1) as nat);
            }
        },
        _ => {},
    }
}

/// Whether a value is neither an array nor an object.
pub open spec fn leaf(tree: Tree) -> bool {
    !(tree is Array) && !(tree is Object)
}

proof fn lemma_object_plain(entries: Seq<(Seq<char>, Tree)>, limit: nat)
    requires
        limit > 0,
        json::distinct_keys(entries),
        forall|i: int|
            0 <= i < entries.len() ==> leaf((#[trigger] entries[i]).1) || plain(
                entries[i].1,
                (limit - 1) as nat,
            ),
    ensures
        plain(Tree::Object(entries), limit),
{
    assert forall|i: int| 0 <= i < entries.len() implies json::keyed((#[trigger] entries[i]).1)
        && json::shallow(entries[i].1, (limit - 1) as nat) by {
        assert(leaf(entries[i].1) || plain(entries[i].1, (limit - 1) as nat));
    }
}

proof fn lemma_array_plain(items: Seq<Tree>, limit: nat)
    requires
        limit > 0,
        forall|i: int|
            0 <= i < items.len() ==> leaf(#[trigger] items[i]) || plain(
                items[i],
                (limit - 1) as nat,
            ),
    ensures
        plain(Tree::Array(items), limit),
{
    assert forall|i: int| 0 <= i < items.len() implies json::keyed(#[trigger] items[i])
        && json::shallow(items[i], (limit - 1) as nat) by {
        assert(leaf(items[i]) || plain(items[i], (limit - 1) as nat));
    }
}

proof fn lemma_usage_plain(u: Totals)
    ensures
        plain(claude::usage_tree(u), 1),
{
    reveal_strlit("input_tokens");
    reveal_strlit("output_tokens");
    reveal_strlit("cache_creation_input_tokens");
    reveal_strlit("cache_read_input_tokens");
    assert("input_tokens"@.len() == 12);
    assert("output_tokens"@.len() == 13);
    assert("cache_creation_input_tokens"@.len() == 27);
    assert("cache_read_input_tokens"@.len() == 23);
    lemma_object_plain(claude::usage_tree(u)->Object_0, 1);
}

proof fn lemma_model_usage_plain(model: Seq<char>, u: Totals)
    ensures
        plain(claude::model_usage_tree(model, u), 2),
{
    reveal_strlit("inputTokens");
    reveal_strlit("outputTokens");
    reveal_strlit("cacheReadInputTokens");
    reveal_strlit("cacheCreationInputTokens");
    assert("inputTokens"@.len() == 11);
    assert("outputTokens"@.len() == 12);
    assert("cacheReadInputTokens"@.len() == 20);
    assert("cacheCreationInputTokens"@.len() == 24);
    let counts = claude::model_usage_tree(model, u)->Object_0[0].1;
    lemma_object_plain(counts->Object_0, 1);
    lemma_object_plain(claude::model_usage_tree(model, u)->Object_0, 2);
}

/// Whether the arguments of a block's tool call are plain.
pub open spec fn plain_arguments(b: ContentBlock) -> bool {
    b matches ContentBlock::ToolCall { arguments, .. } ==> plain(arguments@, 123)
}

/// Whether the arguments of every tool call that ends with an event are plain.
pub open spec fn plain_calls(ev: AgentEvent) -> bool {
    ev matches AgentEvent::MessageEnd(Message::Assistant(a)) ==> forall|i: int|
        0 <= i < a.content@.len() ==> plain_arguments(#[trigger] a.content@[i])
}

proof fn lemma_block_plain(b: ContentBlock)
    requires
        plain_arguments(b),
    ensures
        plain(claude::block_tree(b), 124),
{
    reveal_strlit("type");
    reveal_strlit("text");
    reveal_strlit("thinking");
    reveal_strlit("id");
    reveal_strlit("name");
    reveal_strlit("input");
    assert("type"@.len() == 4);
    assert("text"@.len() == 4);
    assert("thinking"@.len() == 8);
    assert("id"@.len() == 2);
    assert("name"@.len() == 4);
    assert("input"@.len() == 5);
    assert("type"@[1] == 'y');
    assert("text"@[1] == 'e');
    assert("name"@[1] == 'a');
    lemma_object_plain(claude::block_tree(b)->Object_0, 124);
}

proof fn lemma_message_plain(run: Run, a: AssistantMessage)
    requires
        forall|i: int| 0 <= i < a.content@.len() ==> plain_arguments(#[trigger] a.content@[i]),
    ensures
        plain(claude::assistant_message_tree(run, a), 126),
{
    reveal_strlit("id");
    reveal_strlit("type");
    reveal_strlit("role");
    reveal_strlit("model");
    reveal_strlit("content");
    reveal_strlit("stop_reason");
    reveal_strlit("stop_sequence");
    reveal_strlit("usage");
    assert("id"@.len() == 2);
    assert("type"@.len() == 4);
    assert("role"@.len() == 4);
    assert("model"@.len() == 5);
    assert("content"@.len() == 7);
    assert("stop_reason"@.len() == 11);
    assert("stop_sequence"@.len() == 13);
    assert("usage"@.len() == 5);
    assert("type"@[0] == 't');
    assert("role"@[0] == 'r');
    assert("model"@[0] == 'm');
    assert("usage"@[0] == 'u');
    lemma_usage_plain(a.usage.tokens());
    lemma_shallow_within(claude::usage_tree(a.usage.tokens()), 1, 125);
    let blocks = claude::blocks_tree(a.content@);
    assert forall|i: int| 0 <= i < blocks->Array_0.len() implies plain(
        #[trigger] blocks->Array_0[i],
        124,
    ) by {
        assert(plain_arguments(a.content@[i]));
        lemma_block_plain(a.content@[i]);
    }
    lemma_array_plain(blocks->Array_0, 125);
    lemma_object_plain(claude::assistant_message_tree(run, a)->Object_0, 126);
}

proof fn lemma_tool_result_plain(t: ToolResultMessage)
    ensures
        plain(claude::tool_result_message_tree(t), 126),
{
    reveal_strlit("type");
    reveal_strlit("tool_use_id");
    reveal_strlit("content");
    reveal_strlit("is_error");
    reveal_strlit("role");
    assert("type"@.len() == 4);
    assert("tool_use_id"@.len() == 11);
    assert("content"@.len() == 7);
    assert("is_error"@.len() == 8);
    assert("role"@.len() == 4);
    let block = claude::tool_result_block(t);
    lemma_object_plain(block->Object_0, 1);
    lemma_array_plain(seq![block], 2);
    lemma_object_plain(claude::tool_result_message_tree(t)->Object_0, 3);
    lemma_shallow_within(claude::tool_result_message_tree(t), 3, 126);
}

proof fn lemma_result_plain(run: Run)
    ensures
        plain(claude::result_tree(run), 127),
{
    lemma_result_line_keys(run);
    lemma_usage_plain(run.usage);
    lemma_model_usage_plain(run.model, run.usage);
    lemma_shallow_within(claude::usage_tree(run.usage), 1, 2);
    let entries = claude::result_tree(run)->Object_0;
    lemma_object_plain(entries, 3);
    lemma_shallow_within(claude::result_tree(run), 3, 127);
}

/// Where the arguments of the tool calls are plain, every line of the run is
/// written as it is and reads back as it was written.
pub proof fn law_lines_read_back(run: Run, ev: AgentEvent)
    requires
        plain_calls(ev),
    ensures
        forall|i: int|
            0 <= i < claude::emitted(run, ev).len() ==> {
                let line = #[trigger] claude::emitted(run, ev)[i];
                &&& plain(line, 127)
                &&& json::settled(line) == line
            },
{
    match ev {
        AgentEvent::MessageEnd(Message::Assistant(a)) => {
            let message = claude::assistant_message_tree(run, a);
            lemma_message_plain(run, a);
            lemma_message_line_keys("assistant"@, message, run.session_id);
            lemma_object_plain(claude::assistant_tree(run, a)->Object_0, 127);
            json::lemma_keyed_is_settled(claude::assistant_tree(run, a));
        },
        AgentEvent::MessageEnd(Message::ToolResult(t)) => {
            let message = claude::tool_result_message_tree(t);
            lemma_tool_result_plain(t);
            lemma_message_line_keys("user"@, message, run.session_id);
            lemma_object_plain(claude::tool_result_tree(run, t)->Object_0, 127);
            json::lemma_keyed_is_settled(claude::tool_result_tree(run, t));
        },
        AgentEvent::AgentEnd { messages } => {
            let last = claude::closing(run, messages@);
            lemma_result_plain(last);
            json::lemma_keyed_is_settled(claude::result_tree(last));
        },
        _ => {},
    }
}

/// The `system` line is written as it is and reads back as it was written.
pub proof fn law_system_line_reads_back(run: Run, tools: Seq<Seq<char>>)
    ensures
        plain(claude::system_tree(run, tools), 127),
        json::settled(claude::system_tree(run, tools)) == claude::system_tree(run, tools),
{
    reveal_strlit("type");
    reveal_strlit("subtype");
    reveal_strlit("cwd");
    reveal_strlit("session_id");
    reveal_strlit("model");
    reveal_strlit("permissionMode");
    reveal_strlit("tools");
    reveal_strlit("mcpServers");
    reveal_strlit("version");
    assert("type"@.len() == 4);
    assert("subtype"@.len() == 7);
    assert("cwd"@.len() == 3);
    assert("session_id"@.len() == 10);
    assert("model"@.len() == 5);
    assert("permissionMode"@.len() == 14);
    assert("tools"@.len() == 5);
    assert("mcpServers"@.len() == 10);
    assert("version"@.len() == 7);
    assert("subtype"@[0] == 's');
    assert("version"@[0] == 'v');
    assert("session_id"@[0] == 's');
    assert("mcpServers"@[0] == 'm');
    assert("model"@[0] == 'm');
    assert("tools"@[0] == 't');
    lemma_array_plain(claude::text_items(tools)->Array_0, 1);
    lemma_object_plain(Seq::empty(), 1);
    lemma_object_plain(claude::system_tree(run, tools)->Object_0, 2);
    lemma_shallow_within(claude::system_tree(run, tools), 2, 127);
    json::lemma_keyed_is_settled(claude::system_tree(run, tools));
}

} // verus!
