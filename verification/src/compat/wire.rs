//! What the lines carry, key by key, and what each event changes.

use vstd::prelude::*;

use crate::compat::claude;
use crate::compat::claude::{ClaudeLine, MapCtx, Run};
use crate::compat::laws;
use crate::json;
use crate::json::Tree;
use crate::money;
use crate::text;
use crate::types::{
    AgentEvent, AssistantMessage, ContentBlock, Message, StopReason, ToolResultContent,
    ToolResultMessage, Totals, Usage,
};

verus! {

// ---------------------------------------------------------------------------
// Assistant lines
// ---------------------------------------------------------------------------

proof fn lemma_block_keys(b: ContentBlock)
    ensures
        json::distinct_keys(claude::block_tree(b)->Object_0),
{
    reveal_strlit("type");
    reveal_strlit("text");
    reveal_strlit("thinking");
    reveal_strlit("id");
    reveal_strlit("name");
    reveal_strlit("input");
    assert("type"@.len() == 4);
    assert("text"@.len() == 4);
    assert("thinking"@.len() == 8);
    assert("id"@.len() == 2);
    assert("name"@.len() == 4);
    assert("input"@.len() == 5);
    assert("type"@[1] == 'y');
    assert("text"@[1] == 'e');
    assert("name"@[1] == 'a');
}

/// A content block is written under its kind, with its own text, thinking, or
/// id, name and arguments, and with nothing else.
pub proof fn law_blocks_carry_their_content(b: ContentBlock)
    ensures
        ({
            let item = claude::block_tree(b);
            match b {
                ContentBlock::Text { text } => {
                    &&& json::text_field(item, "type"@) == Some("text"@)
                    &&& json::text_field(item, "text"@) == Some(text@)
                    &&& item->Object_0.len() == 2
                },
                ContentBlock::Thinking { thinking, .. } => {
                    &&& json::text_field(item, "type"@) == Some("thinking"@)
                    &&& json::text_field(item, "thinking"@) == Some(thinking@)
                    &&& item->Object_0.len() == 2
                },
                ContentBlock::ToolCall { id, name, arguments } => {
                    &&& json::text_field(item, "type"@) == Some("tool_use"@)
                    &&& json::text_field(item, "id"@) == Some(id@)
                    &&& json::text_field(item, "name"@) == Some(name@)
                    &&& json::field(item, "input"@) == Some(arguments@)
                    &&& item->Object_0.len() == 4
                },
            }
        }),
{
    let entries = claude::block_tree(b)->Object_0;
    lemma_block_keys(b);
    json::lemma_lookup_at(entries, 0);
    json::lemma_lookup_at(entries, 1);
    if b is ToolCall {
        json::lemma_lookup_at(entries, 2);
        json::lemma_lookup_at(entries, 3);
    }
}

proof fn lemma_message_line(kind: Seq<char>, message: Tree, session_id: Seq<char>)
    ensures
        ({
            let line = Tree::Object(
                seq![
                    claude::text_entry("type"@, kind),
                    ("message"@, message),
                    claude::text_entry("session_id"@, session_id),
                ],
            );
            &&& json::text_field(line, "type"@) == Some(kind)
            &&& json::field(line, "message"@) == Some(message)
            &&& json::text_field(line, "session_id"@) == Some(session_id)
        }),
{
    reveal_strlit("type");
    reveal_strlit("message");
    reveal_strlit("session_id");
    assert("type"@.len() == 4);
    assert("message"@.len() == 7);
    assert("session_id"@.len() == 10);
    let entries = seq![
        claude::text_entry("type"@, kind),
        ("message"@, message),
        claude::text_entry("session_id"@, session_id),
    ];
    json::lemma_lookup_at(entries, 0);
    json::lemma_lookup_at(entries, 1);
    json::lemma_lookup_at(entries, 2);
}

proof fn lemma_message_keys(run: Run, a: AssistantMessage)
    ensures
        json::distinct_keys(claude::assistant_message_tree(run, a)->Object_0),
{
    reveal_strlit("id");
    reveal_strlit("type");
    reveal_strlit("role");
    reveal_strlit("model");
    reveal_strlit("content");
    reveal_strlit("stop_reason");
    reveal_strlit("stop_sequence");
    reveal_strlit("usage");
    assert("id"@.len() == 2);
    assert("type"@.len() == 4);
    assert("role"@.len() == 4);
    assert("model"@.len() == 5);
    assert("content"@.len() == 7);
    assert("stop_reason"@.len() == 11);
    assert("stop_sequence"@.len() == 13);
    assert("usage"@.len() == 5);
    assert("type"@[0] == 't');
    assert("role"@[0] == 'r');
    assert("model"@[0] == 'm');
    assert("usage"@[0] == 'u');
}

/// The end of an assistant message is one line. Its content lists the blocks of
/// the message, all of them and in their order, each under its kind and with what
/// it holds.
pub proof fn law_every_block_reaches_the_wire(run: Run, a: AssistantMessage)
    ensures
        ({
            let lines = claude::emitted(run, AgentEvent::MessageEnd(Message::Assistant(a)));
            &&& lines.len() == 1
            &&& json::text_field(lines[0], "type"@) == Some("assistant"@)
            &&& json::field(lines[0], "message"@) matches Some(message)
            &&& json::field(message, "content"@) matches Some(Tree::Array(items))
            &&& items.len() == a.content@.len()
            &&& forall|i: int|
                0 <= i < items.len() ==> match a.content@[i] {
                    ContentBlock::Text { text } => {
                        &&& json::text_field(#[trigger] items[i], "type"@) == Some("text"@)
                        &&& json::text_field(items[i], "text"@) == Some(text@)
                        &&& items[i]->Object_0.len() == 2
                    },
                    ContentBlock::Thinking { thinking, .. } => {
                        &&& json::text_field(items[i], "type"@) == Some("thinking"@)
                        &&& json::text_field(items[i], "thinking"@) == Some(thinking@)
                        &&& items[i]->Object_0.len() == 2
                    },
                    ContentBlock::ToolCall { id, name, arguments } => {
                        &&& json::text_field(items[i], "type"@) == Some("tool_use"@)
                        &&& json::text_field(items[i], "id"@) == Some(id@)
                        &&& json::text_field(items[i], "name"@) == Some(name@)
                        &&& json::field(items[i], "input"@) == Some(arguments@)
                        &&& items[i]->Object_0.len() == 4
                    },
                }
        }),
{
    let message = claude::assistant_message_tree(run, a);
    lemma_message_line("assistant"@, message, run.session_id);
    lemma_message_keys(run, a);
    json::lemma_lookup_at(message->Object_0, 4);
    let items = claude::blocks_tree(a.content@)->Array_0;
    assert forall|i: int| 0 <= i < items.len() implies match a.content@[i] {
        ContentBlock::Text { text } => {
            &&& json::text_field(#[trigger] items[i], "type"@) == Some("text"@)
            &&& json::text_field(items[i], "text"@) == Some(text@)
            &&& items[i]->Object_0.len() == 2
        },
        ContentBlock::Thinking { thinking, .. } => {
            &&& json::text_field(items[i], "type"@) == Some("thinking"@)
            &&& json::text_field(items[i], "thinking"@) == Some(thinking@)
            &&& items[i]->Object_0.len() == 2
        },
        ContentBlock::ToolCall { id, name, arguments } => {
            &&& json::text_field(items[i], "type"@) == Some("tool_use"@)
            &&& json::text_field(items[i], "id"@) == Some(id@)
            &&& json::text_field(items[i], "name"@) == Some(name@)
            &&& json::field(items[i], "input"@) == Some(arguments@)
            &&& items[i]->Object_0.len() == 4
        },
    } by {
        law_blocks_carry_their_content(a.content@[i]);
    }
}

/// Around its content, an assistant line names the message, its role, the model
/// (the message's own, or else the run's) and the stop reason, and echoes the
/// session.
pub proof fn law_assistant_lines_name_the_message(run: Run, a: AssistantMessage)
    ensures
        ({
            let line = claude::emitted(run, AgentEvent::MessageEnd(Message::Assistant(a)))[0];
            &&& json::text_field(line, "session_id"@) == Some(run.session_id)
            &&& json::field(line, "message"@) matches Some(message)
            &&& json::text_field(message, "id"@) == Some(
                match a.response_id {
                    Some(id) => id@,
                    None => "msg_0"@,
                },
            )
            &&& json::text_field(message, "type"@) == Some("message"@)
            &&& json::text_field(message, "role"@) == Some("assistant"@)
            &&& a.model@.len() > 0 ==> json::text_field(message, "model"@) == Some(a.model@)
            &&& a.model@.len() == 0 ==> json::text_field(message, "model"@) == Some(run.model)
            &&& json::text_field(message, "stop_reason"@) == Some(
                match a.stop_reason {
                    StopReason::Length => "max_tokens"@,
                    StopReason::ToolUse => "tool_use"@,
                    _ => "end_turn"@,
                },
            )
            &&& json::field(message, "stop_sequence"@) == Some(Tree::Null)
            &&& json::field(message, "usage"@) matches Some(usage)
            &&& counts_tokens(usage, a.usage)
        }),
{
    let message = claude::assistant_message_tree(run, a);
    let entries = message->Object_0;
    lemma_message_line("assistant"@, message, run.session_id);
    lemma_message_keys(run, a);
    json::lemma_lookup_at(entries, 0);
    json::lemma_lookup_at(entries, 1);
    json::lemma_lookup_at(entries, 2);
    json::lemma_lookup_at(entries, 3);
    json::lemma_lookup_at(entries, 5);
    json::lemma_lookup_at(entries, 6);
    json::lemma_lookup_at(entries, 7);
    lemma_usage(a.usage.tokens());
}

/// The JSON number of a count.
pub open spec fn count(n: nat) -> Option<Tree> {
    Some(Tree::Number(json::uint_number(n as u64)))
}

/// Whether an object holds the token counts of a usage under the keys of a
/// message: what was written to the cache was created there.
pub open spec fn counts_tokens(usage: Tree, u: Usage) -> bool {
    &&& json::field(usage, "input_tokens"@) == count(u.input as nat)
    &&& json::field(usage, "output_tokens"@) == count(u.output as nat)
    &&& json::field(usage, "cache_creation_input_tokens"@) == count(u.cache_write as nat)
    &&& json::field(usage, "cache_read_input_tokens"@) == count(u.cache_read as nat)
}

proof fn lemma_usage(u: Totals)
    ensures
        json::field(claude::usage_tree(u), "input_tokens"@) == count(u.input),
        json::field(claude::usage_tree(u), "output_tokens"@) == count(u.output),
        json::field(claude::usage_tree(u), "cache_creation_input_tokens"@) == count(u.cache_write),
        json::field(claude::usage_tree(u), "cache_read_input_tokens"@) == count(u.cache_read),
{
    reveal_strlit("input_tokens");
    reveal_strlit("output_tokens");
    reveal_strlit("cache_creation_input_tokens");
    reveal_strlit("cache_read_input_tokens");
    assert("input_tokens"@.len() == 12);
    assert("output_tokens"@.len() == 13);
    assert("cache_creation_input_tokens"@.len() == 27);
    assert("cache_read_input_tokens"@.len() == 23);
    let entries = claude::usage_tree(u)->Object_0;
    json::lemma_lookup_at(entries, 0);
    json::lemma_lookup_at(entries, 1);
    json::lemma_lookup_at(entries, 2);
    json::lemma_lookup_at(entries, 3);
}

// ---------------------------------------------------------------------------
// Tool results
// ---------------------------------------------------------------------------

/// The end of a tool result is one `user` line with one block, which names the
/// call, tells whether it failed and holds its text parts, unchanged and in
/// order, on lines of their own.
pub proof fn law_tool_results_reach_the_wire(
    run: Run,
    t: ToolResultMessage,
    texts: Seq<Seq<char>>,
)
    ensures
        ({
            let lines = claude::emitted(run, AgentEvent::MessageEnd(Message::ToolResult(t)));
            &&& lines.len() == 1
            &&& json::text_field(lines[0], "type"@) == Some("user"@)
            &&& json::text_field(lines[0], "session_id"@) == Some(run.session_id)
            &&& json::field(lines[0], "message"@) matches Some(message)
            &&& json::text_field(message, "role"@) == Some("user"@)
            &&& json::field(message, "content"@) matches Some(Tree::Array(blocks))
            &&& blocks.len() == 1
            &&& json::text_field(blocks[0], "type"@) == Some("tool_result"@)
            &&& json::text_field(blocks[0], "tool_use_id"@) == Some(t.tool_call_id@)
            &&& json::field(blocks[0], "is_error"@) == Some(Tree::Bool(t.is_error))
            &&& texts.len() == t.content@.len() && (forall|i: int|
                0 <= i < texts.len() ==> (#[trigger] t.content@[i] matches ToolResultContent::Text {
                    text,
                } && text@ == texts[i])) ==> json::text_field(blocks[0], "content"@) == Some(
                text::join(texts, "\n"@),
            )
        }),
{
    let message = claude::tool_result_message_tree(t);
    let block = claude::tool_result_block(t);
    lemma_message_line("user"@, message, run.session_id);
    reveal_strlit("type");
    reveal_strlit("tool_use_id");
    reveal_strlit("content");
    reveal_strlit("is_error");
    reveal_strlit("role");
    assert("type"@.len() == 4);
    assert("tool_use_id"@.len() == 11);
    assert("content"@.len() == 7);
    assert("is_error"@.len() == 8);
    assert("role"@.len() == 4);
    json::lemma_lookup_at(message->Object_0, 0);
    json::lemma_lookup_at(message->Object_0, 1);
    json::lemma_lookup_at(block->Object_0, 0);
    json::lemma_lookup_at(block->Object_0, 1);
    json::lemma_lookup_at(block->Object_0, 2);
    json::lemma_lookup_at(block->Object_0, 3);
    if texts.len() == t.content@.len() && (forall|i: int|
        0 <= i < texts.len() ==> (#[trigger] t.content@[i] matches ToolResultContent::Text { text }
            && text@ == texts[i])) {
        lemma_all_texts(t.content@, texts);
    }
}

proof fn lemma_all_texts(content: Seq<ToolResultContent>, texts: Seq<Seq<char>>)
    requires
        texts.len() == content.len(),
        forall|i: int|
            0 <= i < texts.len() ==> (#[trigger] content[i] matches ToolResultContent::Text { text }
                && text@ == texts[i]),
    ensures
        claude::result_texts(content) == texts,
    decreases content.len(),
{
    if content.len() == 0 {
        assert(texts =~= Seq::empty());
    } else {
        let before = content.drop_last();
        assert forall|i: int| 0 <= i < before.len() implies (
        #[trigger] before[i] matches ToolResultContent::Text { text } && text@
            == texts.drop_last()[i]) by {
            assert(before[i] == content[i]);
        }
        lemma_all_texts(before, texts.drop_last());
        assert(content[content.len() - 1] == content.last());
        assert(texts =~= texts.drop_last().push(texts.last()));
    }
}

/// Parts of a tool result that are not text change nothing of its text.
pub proof fn law_pictures_are_passed_over(
    before: Seq<ToolResultContent>,
    picture: ToolResultContent,
    after: Seq<ToolResultContent>,
)
    requires
        !(picture is Text),
    ensures
        claude::result_texts(before.push(picture) + after) == claude::result_texts(before + after),
    decreases after.len(),
{
    let with = before.push(picture) + after;
    let without = before + after;
    if after.len() == 0 {
        assert(with =~= before.push(picture));
        assert(with.drop_last() =~= before);
        assert(without =~= before);
    } else {
        assert(with.drop_last() =~= before.push(picture) + after.drop_last());
        assert(without.drop_last() =~= before + after.drop_last());
        assert(with.last() == without.last());
        law_pictures_are_passed_over(before, picture, after.drop_last());
    }
}

// ---------------------------------------------------------------------------
// Result and system lines
// ---------------------------------------------------------------------------

/// The end of a run is one `result` line with the totals of the context: token
/// counts, price, turns, duration, model and the last stop reason, which is left
/// out where there is none. The counts stand there a second time under the
/// model's name.
pub proof fn law_result_lines_carry_the_totals(run: Run, messages: Vec<Message>)
    ensures
        ({
            let lines = claude::emitted(run, AgentEvent::AgentEnd { messages });
            let line = lines[0];
            &&& lines.len() == 1
            &&& json::text_field(line, "type"@) == Some("result"@)
            &&& json::text_field(line, "session_id"@) == Some(run.session_id)
            &&& json::text_field(line, "model"@) == Some(run.model)
            &&& json::field(line, "duration_ms"@) == count(run.duration_ms as nat)
            &&& json::field(line, "num_turns"@) == count(run.num_turns)
            &&& json::field(line, "total_cost_usd"@) == Some(
                match run.cost.total {
                    Some(n) => Tree::Number(n),
                    None => Tree::Null,
                },
            )
            &&& json::text_field(line, "stop_reason"@) == run.last_stop_reason
            &&& json::field(line, "usage"@) matches Some(usage)
            &&& json::field(usage, "input_tokens"@) == count(run.usage.input)
            &&& json::field(usage, "output_tokens"@) == count(run.usage.output)
            &&& json::field(usage, "cache_creation_input_tokens"@) == count(run.usage.cache_write)
            &&& json::field(usage, "cache_read_input_tokens"@) == count(run.usage.cache_read)
            &&& json::field(line, "modelUsage"@) matches Some(models)
            &&& json::field(models, run.model) matches Some(counts)
            &&& json::field(counts, "inputTokens"@) == count(run.usage.input)
            &&& json::field(counts, "outputTokens"@) == count(run.usage.output)
            &&& json::field(counts, "cacheReadInputTokens"@) == count(run.usage.cache_read)
            &&& json::field(counts, "cacheCreationInputTokens"@) == count(run.usage.cache_write)
        }),
{
    let last = claude::closing(run, messages@);
    let entries = claude::result_tree(last)->Object_0;
    laws::lemma_result_line_keys(last);
    json::lemma_lookup_at(entries, 0);
    json::lemma_lookup_at(entries, 4);
    json::lemma_lookup_at(entries, 5);
    json::lemma_lookup_at(entries, 6);
    json::lemma_lookup_at(entries, 7);
    json::lemma_lookup_at(entries, 8);
    json::lemma_lookup_at(entries, entries.len() - 2);
    json::lemma_lookup_at(entries, entries.len() - 1);
    if run.last_stop_reason is Some {
        json::lemma_lookup_at(entries, 9);
    } else {
        reveal_strlit("stop_reason");
        reveal_strlit("type");
        reveal_strlit("subtype");
        reveal_strlit("is_error");
        reveal_strlit("result");
        reveal_strlit("session_id");
        reveal_strlit("total_cost_usd");
        reveal_strlit("duration_ms");
        reveal_strlit("num_turns");
        reveal_strlit("model");
        reveal_strlit("usage");
        reveal_strlit("modelUsage");
        assert("duration_ms"@[0] == 'd');
        assert("stop_reason"@[0] == 's');
        assert forall|i: int| 0 <= i < entries.len() implies (#[trigger] entries[i]).0
            != "stop_reason"@ by {
            assert("stop_reason"@.len() == 11);
        }
        json::law_a_key_reads_as_its_last_entry(entries, "stop_reason"@, Tree::Null);
    }
    lemma_usage(run.usage);
    reveal_strlit("inputTokens");
    reveal_strlit("outputTokens");
    reveal_strlit("cacheReadInputTokens");
    reveal_strlit("cacheCreationInputTokens");
    assert("inputTokens"@.len() == 11);
    assert("outputTokens"@.len() == 12);
    assert("cacheReadInputTokens"@.len() == 20);
    assert("cacheCreationInputTokens"@.len() == 24);
    let models = claude::model_usage_tree(run.model, run.usage)->Object_0;
    let counts = models[0].1->Object_0;
    json::lemma_lookup_at(models, 0);
    json::lemma_lookup_at(counts, 0);
    json::lemma_lookup_at(counts, 1);
    json::lemma_lookup_at(counts, 2);
    json::lemma_lookup_at(counts, 3);
}

/// The text of a `result` line is the error if there was one, else what was
/// spoken, else the last text of the transcript. The line is an error exactly if
/// there was one or a message of the turn stopped for a failure.
pub proof fn law_result_lines_tell_how_it_went(run: Run, messages: Vec<Message>)
    ensures
        ({
            let line = claude::emitted(run, AgentEvent::AgentEnd { messages })[0];
            let failed = run.error is Some || run.failed_stop;
            &&& json::field(line, "is_error"@) == Some(Tree::Bool(failed))
            &&& failed ==> json::text_field(line, "subtype"@) == Some("error"@)
            &&& !failed ==> json::text_field(line, "subtype"@) == Some("success"@)
            &&& run.error is Some ==> json::text_field(line, "result"@) == run.error
            &&& run.error is None && run.final_text.len() > 0 ==> json::text_field(line, "result"@)
                == Some(run.final_text)
            &&& run.error is None && run.final_text.len() == 0 ==> json::text_field(
                line,
                "result"@,
            ) == Some(claude::last_text(messages@))
        }),
{
    let last = claude::closing(run, messages@);
    let entries = claude::result_tree(last)->Object_0;
    laws::lemma_result_line_keys(last);
    json::lemma_lookup_at(entries, 1);
    json::lemma_lookup_at(entries, 2);
    json::lemma_lookup_at(entries, 3);
}

/// The last text of a transcript is that of an assistant message after which no
/// other one has any; where there is none, no assistant message has text.
pub proof fn law_the_last_text_is_the_latest(messages: Seq<Message>)
    ensures
        claude::last_text(messages).len() > 0 ==> exists|i: int|
            {
                &&& 0 <= i < messages.len()
                &&& #[trigger] messages[i] matches Message::Assistant(a)
                &&& a.text@ == claude::last_text(messages)
                &&& forall|j: int|
                    i < j < messages.len() ==> (#[trigger] messages[j] matches Message::Assistant(b)
                        ==> b.text@.len() == 0)
            },
        claude::last_text(messages).len() == 0 ==> forall|i: int|
            0 <= i < messages.len() ==> (#[trigger] messages[i] matches Message::Assistant(a)
                ==> a.text@.len() == 0),
    decreases messages.len(),
{
    if messages.len() > 0 {
        let before = messages.drop_last();
        let n = messages.len() - 1;
        assert(messages[n] == messages.last());
        if messages.last() matches Message::Assistant(a) && a.text@.len() > 0 {
            assert(messages[n] is Assistant);
        } else {
            law_the_last_text_is_the_latest(before);
            if claude::last_text(before).len() > 0 {
                let i = choose|i: int|
                    {
                        &&& 0 <= i < before.len()
                        &&& #[trigger] before[i] matches Message::Assistant(a)
                        &&& a.text@ == claude::last_text(before)
                        &&& forall|j: int|
                            i < j < before.len() ==> (
                            #[trigger] before[j] matches Message::Assistant(b) ==> b.text@.len()
                                == 0)
                    };
                assert(messages[i] == before[i]);
                assert forall|j: int| i < j < messages.len() implies (
                #[trigger] messages[j] matches Message::Assistant(b) ==> b.text@.len() == 0) by {
                    if j < n {
                        assert(messages[j] == before[j]);
                    }
                }
            } else {
                assert forall|j: int| 0 <= j < messages.len() implies (
                #[trigger] messages[j] matches Message::Assistant(b) ==> b.text@.len() == 0) by {
                    if j < n {
                        assert(messages[j] == before[j]);
                    }
                }
            }
        }
    }
}

/// The `system` line names the session, the model, the working directory, the
/// permission mode and the version, and lists every tool in its order.
pub proof fn law_the_system_line_names_the_process(run: Run, tools: Seq<Seq<char>>)
    ensures
        ({
            let line = claude::system_tree(run, tools);
            &&& json::text_field(line, "type"@) == Some("system"@)
            &&& json::text_field(line, "subtype"@) == Some("init"@)
            &&& json::text_field(line, "cwd"@) == Some(run.cwd)
            &&& json::text_field(line, "session_id"@) == Some(run.session_id)
            &&& json::text_field(line, "model"@) == Some(run.model)
            &&& json::text_field(line, "permissionMode"@) == Some(run.permission_mode)
            &&& json::text_field(line, "version"@) == Some("0.1.0"@)
            &&& json::field(line, "mcpServers"@) == Some(Tree::Object(Seq::empty()))
            &&& json::field(line, "tools"@) matches Some(Tree::Array(items))
            &&& items.len() == tools.len()
            &&& forall|i: int| 0 <= i < items.len() ==> #[trigger] items[i] == Tree::Str(tools[i])
        }),
{
    reveal_strlit("type");
    reveal_strlit("subtype");
    reveal_strlit("cwd");
    reveal_strlit("session_id");
    reveal_strlit("model");
    reveal_strlit("permissionMode");
    reveal_strlit("tools");
    reveal_strlit("mcpServers");
    reveal_strlit("version");
    assert("type"@.len() == 4);
    assert("subtype"@.len() == 7);
    assert("cwd"@.len() == 3);
    assert("session_id"@.len() == 10);
    assert("model"@.len() == 5);
    assert("permissionMode"@.len() == 14);
    assert("tools"@.len() == 5);
    assert("mcpServers"@.len() == 10);
    assert("version"@.len() == 7);
    assert("subtype"@[0] == 's');
    assert("version"@[0] == 'v');
    assert("session_id"@[0] == 's');
    assert("mcpServers"@[0] == 'm');
    assert("model"@[0] == 'm');
    assert("tools"@[0] == 't');
    let entries = claude::system_tree(run, tools)->Object_0;
    json::lemma_lookup_at(entries, 0);
    json::lemma_lookup_at(entries, 1);
    json::lemma_lookup_at(entries, 2);
    json::lemma_lookup_at(entries, 3);
    json::lemma_lookup_at(entries, 4);
    json::lemma_lookup_at(entries, 5);
    json::lemma_lookup_at(entries, 6);
    json::lemma_lookup_at(entries, 7);
    json::lemma_lookup_at(entries, 8);
}

/// Lines that carry a message are written with their kind, the message as it is
/// and the session.
pub proof fn law_message_lines_are_written_whole(line: ClaudeLine)
    ensures
        line matches ClaudeLine::Assistant { message, session_id } ==> {
            &&& json::text_field(line@, "type"@) == Some("assistant"@)
            &&& json::field(line@, "message"@) == Some(message@)
            &&& json::text_field(line@, "session_id"@) == Some(session_id@)
        },
        line matches ClaudeLine::User { message, session_id } ==> {
            &&& json::text_field(line@, "type"@) == Some("user"@)
            &&& json::field(line@, "message"@) == Some(message@)
            &&& json::text_field(line@, "session_id"@) == Some(session_id@)
        },
{
    match line {
        ClaudeLine::Assistant { message, session_id } => {
            lemma_message_line("assistant"@, message@, session_id@);
        },
        ClaudeLine::User { message, session_id } => {
            lemma_message_line("user"@, message@, session_id@);
        },
        _ => {},
    }
}

// ---------------------------------------------------------------------------
// The context
// ---------------------------------------------------------------------------

/// A context is what its fields hold.
pub proof fn law_contexts_show_their_fields(ctx: MapCtx)
    ensures
        ctx@.session_id == ctx.session_id@,
        ctx@.model == ctx.model@,
        ctx@.cwd == ctx.cwd@,
        ctx@.permission_mode == ctx.permission_mode@,
        ctx@.usage.input == ctx.usage.input,
        ctx@.usage.output == ctx.usage.output,
        ctx@.usage.cache_read == ctx.usage.cache_read,
        ctx@.usage.cache_write == ctx.usage.cache_write,
        ctx@.cost == ctx.usage.cost,
        ctx@.num_turns == ctx.num_turns,
        ctx@.final_text == ctx.final_text@,
        ctx@.failed_stop == ctx.failed_stop,
        ctx@.duration_ms == ctx.duration_ms,
        ctx@.error is Some <==> ctx.error is Some,
        ctx.error matches Some(e) ==> ctx@.error == Some(e@),
        ctx@.last_stop_reason is Some <==> ctx.last_stop_reason is Some,
        ctx.last_stop_reason matches Some(r) ==> ctx@.last_stop_reason == Some(r@),
{
}

/// A usage event adds each of its counts to the total of that kind and takes over
/// the price; no other event changes either.
pub proof fn law_usage_adds_to_each_total(run: Run, u: Usage, other: AgentEvent)
    requires
        !(other is Usage),
    ensures
        ({
            let next = claude::advance(run, AgentEvent::Usage(u));
            &&& next.usage.input == run.usage.input + u.input
            &&& next.usage.output == run.usage.output + u.output
            &&& next.usage.cache_read == run.usage.cache_read + u.cache_read
            &&& next.usage.cache_write == run.usage.cache_write + u.cache_write
            &&& next.cost.total == u.cost.so_far
            &&& next.num_turns == run.num_turns
            &&& next.error == run.error
            &&& next.final_text == run.final_text
            &&& next.last_stop_reason == run.last_stop_reason
            &&& next.failed_stop == run.failed_stop
        }),
        claude::emitted(run, AgentEvent::Usage(u)).len() == 0,
        claude::advance(run, other).usage == run.usage,
        claude::advance(run, other).cost == run.cost,
{
}

/// The end of an assistant message counts one turn, and leaves its error, its
/// stop reason and its text where it has them. Nothing else counts a turn.
pub proof fn law_messages_count_as_turns(run: Run, a: AssistantMessage, other: AgentEvent)
    requires
        !(other matches AgentEvent::MessageEnd(m) && m is Assistant),
    ensures
        ({
            let next = claude::advance(run, AgentEvent::MessageEnd(Message::Assistant(a)));
            &&& next.num_turns == run.num_turns + 1
            &&& a.error_message matches Some(e) ==> next.error == Some(e@)
            &&& a.error_message is None ==> next.error == run.error
            &&& a.text@.len() > 0 ==> next.final_text == a.text@
            &&& a.text@.len() == 0 ==> next.final_text == run.final_text
            &&& next.failed_stop == (run.failed_stop || a.stop_reason == StopReason::Error
                || a.stop_reason == StopReason::Aborted)
            &&& next.last_stop_reason == Some(
                match a.stop_reason {
                    StopReason::Length => "max_tokens"@,
                    StopReason::ToolUse => "tool_use"@,
                    _ => "end_turn"@,
                },
            )
        }),
        claude::advance(run, other).num_turns == run.num_turns,
        claude::advance(run, other).last_stop_reason == run.last_stop_reason,
{
}

/// An error event is remembered with its own text and prints no line. Prompts,
/// streamed pieces, tool executions and turn ends change nothing and print
/// nothing.
pub proof fn law_other_events_leave_no_trace(run: Run, msg: String, ev: AgentEvent)
    ensures
        claude::advance(run, AgentEvent::Error(msg)) == (Run { error: Some(msg@), ..run }),
        claude::emitted(run, AgentEvent::Error(msg)).len() == 0,
        (match ev {
            AgentEvent::MessageEnd(m) => m is User,
            AgentEvent::MessageStart(_) => true,
            AgentEvent::MessageUpdate { .. } => true,
            AgentEvent::ToolExecutionStart { .. } => true,
            AgentEvent::ToolExecutionEnd { .. } => true,
            AgentEvent::TurnEnd { .. } => true,
            AgentEvent::Other => true,
            _ => false,
        }) ==> claude::advance(run, ev) == run && claude::emitted(run, ev).len() == 0,
        ev matches AgentEvent::MessageEnd(m) && m is ToolResult ==> claude::advance(run, ev) == run,
{
}

/// An event can be mapped as long as its counts and turns fit a machine word;
/// events that count nothing always can.
pub proof fn law_counts_that_fit_can_be_mapped(run: Run, u: Usage, ev: AgentEvent)
    requires
        run.usage.input <= u64::MAX,
        run.usage.output <= u64::MAX,
        run.usage.cache_read <= u64::MAX,
        run.usage.cache_write <= u64::MAX,
        run.num_turns <= usize::MAX,
    ensures
        claude::countable(run, AgentEvent::Usage(u)) <==> run.usage.input + u.input <= u64::MAX
            && run.usage.output + u.output <= u64::MAX && run.usage.cache_read + u.cache_read
            <= u64::MAX && run.usage.cache_write + u.cache_write <= u64::MAX,
        ev matches AgentEvent::MessageEnd(m) && m is Assistant ==> (claude::countable(run, ev)
            <==> run.num_turns < usize::MAX),
        !(ev is Usage) && !(ev matches AgentEvent::MessageEnd(m) && m is Assistant)
            ==> claude::countable(run, ev),
{
}

/// A fresh price is zero, and a price is written as its number.
pub proof fn law_prices_are_written_as_numbers(n: serde_json::Number)
    ensures
        money::zero_price() == Some(json::decimal_number("0.0"@)),
        money::price_tree(Some(n)) == Tree::Number(n),
        money::price_tree(None) is Null,
{
}

/// A `result` line is written with every field that it has, under its own key;
/// a stop reason that it does not have is left out.
pub proof fn law_result_lines_are_written_whole(line: ClaudeLine)
    ensures
        line matches ClaudeLine::Result {
            subtype,
            is_error,
            result,
            session_id,
            total_cost_usd,
            duration_ms,
            num_turns,
            model,
            stop_reason,
            usage,
            model_usage,
        } ==> {
            &&& json::text_field(line@, "type"@) == Some("result"@)
            &&& json::text_field(line@, "subtype"@) == Some(subtype@)
            &&& json::field(line@, "is_error"@) == Some(Tree::Bool(is_error))
            &&& json::text_field(line@, "result"@) == Some(result@)
            &&& json::text_field(line@, "session_id"@) == Some(session_id@)
            &&& json::field(line@, "total_cost_usd"@) == Some(money::price_tree(total_cost_usd))
            &&& json::field(line@, "duration_ms"@) == count(duration_ms as nat)
            &&& json::field(line@, "num_turns"@) == count(num_turns as nat)
            &&& json::text_field(line@, "model"@) == Some(model@)
            &&& json::field(line@, "usage"@) == Some(usage@)
            &&& json::field(line@, "modelUsage"@) == Some(model_usage@)
            &&& stop_reason matches Some(reason) ==> json::text_field(line@, "stop_reason"@)
                == Some(reason@)
            &&& stop_reason is None ==> line@->Object_0.len() == 11
        },
{
    if line is Result {
        reveal_strlit("type");
        reveal_strlit("subtype");
        reveal_strlit("is_error");
        reveal_strlit("result");
        reveal_strlit("session_id");
        reveal_strlit("total_cost_usd");
        reveal_strlit("duration_ms");
        reveal_strlit("num_turns");
        reveal_strlit("model");
        reveal_strlit("stop_reason");
        reveal_strlit("usage");
        reveal_strlit("modelUsage");
        assert("type"@.len() == 4);
        assert("subtype"@.len() == 7);
        assert("is_error"@.len() == 8);
        assert("result"@.len() == 6);
        assert("session_id"@.len() == 10);
        assert("total_cost_usd"@.len() == 14);
        assert("duration_ms"@.len() == 11);
        assert("num_turns"@.len() == 9);
        assert("model"@.len() == 5);
        assert("stop_reason"@.len() == 11);
        assert("usage"@.len() == 5);
        assert("modelUsage"@.len() == 10);
        assert("session_id"@[0] == 's');
        assert("modelUsage"@[0] == 'm');
        assert("duration_ms"@[0] == 'd');
        assert("stop_reason"@[0] == 's');
        assert("model"@[0] == 'm');
        assert("usage"@[0] == 'u');
        let entries = line@->Object_0;
        assert(json::distinct_keys(entries));
        json::lemma_lookup_at(entries, 0);
        json::lemma_lookup_at(entries, 1);
        json::lemma_lookup_at(entries, 2);
        json::lemma_lookup_at(entries, 3);
        json::lemma_lookup_at(entries, 4);
        json::lemma_lookup_at(entries, 5);
        json::lemma_lookup_at(entries, 6);
        json::lemma_lookup_at(entries, 7);
        json::lemma_lookup_at(entries, 8);
        json::lemma_lookup_at(entries, entries.len() - 2);
        json::lemma_lookup_at(entries, entries.len() - 1);
        if line->stop_reason is Some {
            json::lemma_lookup_at(entries, 9);
        }
    }
}

} // verus!
