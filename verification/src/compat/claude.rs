//! The lines of `stream-json` output and the mapping of events onto them.
//!
//! | line        | comes from                                        |
//! |-------------|---------------------------------------------------|
//! | `system`    | [`system_init`], once at process start            |
//! | `assistant` | the end of an assistant message                   |
//! | `user`      | the end of a tool result                          |
//! | `result`    | the end of the run, exactly one per turn          |

use vstd::prelude::*;

use crate::json;
use crate::json::{Json, Tree};
use crate::money;
use crate::text;
use crate::types::{
    AgentEvent, AssistantMessage, ContentBlock, Cost, Message, StopReason, ToolResultContent,
    ToolResultMessage, Totals, Usage,
};

verus! {

/// The version that `system` lines report: that of the package.
pub const VERSION: &'static str = "0.1.0";

/// What the mapper knows of the process and accumulates over its turns.
#[derive(Debug, Clone)]
pub struct MapCtx {
    /// Id that every line echoes.
    pub session_id: String,
    /// Model that drives the run.
    pub model: String,
    /// Working directory.
    pub cwd: String,
    /// Permission mode label.
    pub permission_mode: String,
    /// Tokens and price so far.
    pub usage: Usage,
    /// Assistant messages so far.
    pub num_turns: usize,
    /// Last text that an assistant message carried.
    pub final_text: String,
    /// Stop reason of the last assistant message.
    pub last_stop_reason: Option<String>,
    /// Last failure.
    pub error: Option<String>,
    /// Whether an assistant message of the turn has stopped for a failure.
    pub failed_stop: bool,
    /// Wall-clock time of the turn.
    pub duration_ms: u64,
}

/// The contents of a [`MapCtx`].
pub struct Run {
    pub session_id: Seq<char>,
    pub model: Seq<char>,
    pub cwd: Seq<char>,
    pub permission_mode: Seq<char>,
    pub usage: Totals,
    pub cost: Cost,
    pub num_turns: nat,
    pub final_text: Seq<char>,
    pub last_stop_reason: Option<Seq<char>>,
    pub error: Option<Seq<char>>,
    pub failed_stop: bool,
    pub duration_ms: u64,
}

impl View for MapCtx {
    type V = Run;

    open spec fn view(&self) -> Run {
        Run {
            session_id: self.session_id@,
            model: self.model@,
            cwd: self.cwd@,
            permission_mode: self.permission_mode@,
            usage: self.usage.tokens(),
            cost: self.usage.cost,
            num_turns: self.num_turns as nat,
            final_text: self.final_text@,
            last_stop_reason: text::opt_view(self.last_stop_reason),
            error: text::opt_view(self.error),
            failed_stop: self.failed_stop,
            duration_ms: self.duration_ms,
        }
    }
}

impl MapCtx {
    /// A context that has seen nothing yet.
    pub fn new(session_id: &str, model: &str, cwd: &str, permission_mode: &str) -> (r: MapCtx)
        ensures
            r@ == (Run {
                session_id: session_id@,
                model: model@,
                cwd: cwd@,
                permission_mode: permission_mode@,
                usage: Totals::zero(),
                cost: Cost { total: money::zero_price(), so_far: money::zero_price() },
                num_turns: 0,
                final_text: Seq::empty(),
                last_stop_reason: None,
                error: None,
                failed_stop: false,
                duration_ms: 0,
            }),
    {
        MapCtx {
            session_id: session_id.to_string(),
            model: model.to_string(),
            cwd: cwd.to_string(),
            permission_mode: permission_mode.to_string(),
            usage: Usage::default(),
            num_turns: 0,
            final_text: String::new(),
            last_stop_reason: None,
            error: None,
            failed_stop: false,
            duration_ms: 0,
        }
    }

    /// Stamps the duration of the turn.
    pub fn set_duration_ms(&mut self, ms: u64)
        ensures
            final(self)@ == (Run { duration_ms: ms, ..old(self)@ }),
    {
        self.duration_ms = ms;
    }
}

// ---------------------------------------------------------------------------
// Objects
// ---------------------------------------------------------------------------

/// An entry whose value is a string.
pub open spec fn text_entry(key: Seq<char>, value: Seq<char>) -> (Seq<char>, Tree) {
    (key, Tree::Str(value))
}

/// An entry whose value is an unsigned integer.
pub open spec fn uint_entry(key: Seq<char>, n: nat) -> (Seq<char>, Tree) {
    (key, Tree::Number(json::uint_number(n as u64)))
}

/// The entries and, if there is one, one more string.
pub open spec fn maybe_text(
    entries: Seq<(Seq<char>, Tree)>,
    key: Seq<char>,
    value: Option<Seq<char>>,
) -> Seq<(Seq<char>, Tree)> {
    match value {
        Some(value) => entries.push(text_entry(key, value)),
        None => entries,
    }
}

fn put_json(entries: &mut Vec<(String, Json)>, key: &str, value: Json)
    ensures
        json::entry_trees(final(entries)@) == json::entry_trees(old(entries)@).push(
            (key@, value@),
        ),
{
    broadcast use json::group_json_view;

    entries.push((key.to_string(), value));
}

fn put_text(entries: &mut Vec<(String, Json)>, key: &str, value: &str)
    ensures
        json::entry_trees(final(entries)@) == json::entry_trees(old(entries)@).push(
            text_entry(key@, value@),
        ),
{
    put_json(entries, key, Json::text(value));
}

fn put_maybe_text(entries: &mut Vec<(String, Json)>, key: &str, value: &Option<String>)
    ensures
        json::entry_trees(final(entries)@) == maybe_text(
            json::entry_trees(old(entries)@),
            key@,
            text::opt_view(*value),
        ),
{
    match value {
        Some(value) => put_text(entries, key, value.as_str()),
        None => {},
    }
}

fn put_uint(entries: &mut Vec<(String, Json)>, key: &str, n: u64)
    ensures
        json::entry_trees(final(entries)@) == json::entry_trees(old(entries)@).push(
            uint_entry(key@, n as nat),
        ),
{
    put_json(entries, key, Json::uint(n));
}

// ---------------------------------------------------------------------------
// Shapes
// ---------------------------------------------------------------------------

/// The stop reason that the wire knows. Failures have none of their own; the
/// `result` line reports them.
pub open spec fn stop_label(r: StopReason) -> Seq<char> {
    match r {
        StopReason::Stop => "end_turn"@,
        StopReason::Length => "max_tokens"@,
        StopReason::ToolUse => "tool_use"@,
        StopReason::Error => "end_turn"@,
        StopReason::Aborted => "end_turn"@,
    }
}

/// Whether a stop reason is a failure.
pub open spec fn failed_stop(r: StopReason) -> bool {
    r == StopReason::Error || r == StopReason::Aborted
}

/// Maps a stop reason.
pub fn map_stop_reason(r: StopReason) -> (s: Option<&'static str>)
    ensures
        s matches Some(label) && label@ == stop_label(r),
{
    Some(
        match r {
            StopReason::Stop => "end_turn",
            StopReason::Length => "max_tokens",
            StopReason::ToolUse => "tool_use",
            StopReason::Error => "end_turn",
            StopReason::Aborted => "end_turn",
        },
    )
}

/// A content block: text as it is, thinking without its signature, and a tool
/// call with its arguments as `input`.
pub open spec fn block_tree(b: ContentBlock) -> Tree {
    match b {
        ContentBlock::Text { text } => Tree::Object(
            seq![text_entry("type"@, "text"@), text_entry("text"@, text@)],
        ),
        ContentBlock::Thinking { thinking, .. } => Tree::Object(
            seq![text_entry("type"@, "thinking"@), text_entry("thinking"@, thinking@)],
        ),
        ContentBlock::ToolCall { id, name, arguments } => Tree::Object(
            seq![
                text_entry("type"@, "tool_use"@),
                text_entry("id"@, id@),
                text_entry("name"@, name@),
                ("input"@, arguments@),
            ],
        ),
    }
}

/// Maps a content block.
pub fn map_content_block(b: &ContentBlock) -> (r: Json)
    ensures
        r@ == block_tree(*b),
{
    broadcast use json::group_json_view;

    let mut o: Vec<(String, Json)> = Vec::new();
    assert(json::entry_trees(o@) =~= Seq::empty());
    match b {
        ContentBlock::Text { text } => {
            put_text(&mut o, "type", "text");
            put_text(&mut o, "text", text.as_str());
        },
        ContentBlock::Thinking { thinking, .. } => {
            put_text(&mut o, "type", "thinking");
            put_text(&mut o, "thinking", thinking.as_str());
        },
        ContentBlock::ToolCall { id, name, arguments } => {
            put_text(&mut o, "type", "tool_use");
            put_text(&mut o, "id", id.as_str());
            put_text(&mut o, "name", name.as_str());
            put_json(&mut o, "input", arguments.clone());
        },
    }
    assert(json::entry_trees(o@) =~= block_tree(*b)->Object_0);
    Json::Object(o)
}

/// Token counts under the keys of a message.
pub open spec fn usage_tree(u: Totals) -> Tree {
    Tree::Object(
        seq![
            uint_entry("input_tokens"@, u.input),
            uint_entry("output_tokens"@, u.output),
            uint_entry("cache_creation_input_tokens"@, u.cache_write),
            uint_entry("cache_read_input_tokens"@, u.cache_read),
        ],
    )
}

/// Maps token counts.
pub fn usage_tokens(u: &Usage) -> (r: Json)
    ensures
        r@ == usage_tree(u.tokens()),
{
    broadcast use json::group_json_view;

    let mut o: Vec<(String, Json)> = Vec::new();
    assert(json::entry_trees(o@) =~= Seq::empty());
    put_uint(&mut o, "input_tokens", u.input);
    put_uint(&mut o, "output_tokens", u.output);
    put_uint(&mut o, "cache_creation_input_tokens", u.cache_write);
    put_uint(&mut o, "cache_read_input_tokens", u.cache_read);
    assert(json::entry_trees(o@) =~= usage_tree(u.tokens())->Object_0);
    Json::Object(o)
}

/// Token counts under the model's name.
pub open spec fn model_usage_tree(model: Seq<char>, u: Totals) -> Tree {
    Tree::Object(
        seq![
            (
                model,
                Tree::Object(
                    seq![
                        uint_entry("inputTokens"@, u.input),
                        uint_entry("outputTokens"@, u.output),
                        uint_entry("cacheReadInputTokens"@, u.cache_read),
                        uint_entry("cacheCreationInputTokens"@, u.cache_write),
                    ],
                ),
            ),
        ],
    )
}

/// Maps token counts to the per-model object of the `result` line.
pub fn per_model_usage(model: &str, u: &Usage) -> (r: Json)
    ensures
        r@ == model_usage_tree(model@, u.tokens()),
{
    broadcast use json::group_json_view;

    let mut counts: Vec<(String, Json)> = Vec::new();
    assert(json::entry_trees(counts@) =~= Seq::empty());
    put_uint(&mut counts, "inputTokens", u.input);
    put_uint(&mut counts, "outputTokens", u.output);
    put_uint(&mut counts, "cacheReadInputTokens", u.cache_read);
    put_uint(&mut counts, "cacheCreationInputTokens", u.cache_write);
    assert(json::entry_trees(counts@)
        =~= model_usage_tree(model@, u.tokens())->Object_0[0].1->Object_0);
    let mut o: Vec<(String, Json)> = Vec::new();
    assert(json::entry_trees(o@) =~= Seq::empty());
    put_json(&mut o, model, Json::Object(counts));
    assert(json::entry_trees(o@) =~= model_usage_tree(model@, u.tokens())->Object_0);
    Json::Object(o)
}

// ---------------------------------------------------------------------------
// Lines
// ---------------------------------------------------------------------------

/// One line of `stream-json` output.
#[derive(Debug, Clone)]
pub enum ClaudeLine {
    /// Process start.
    System {
        subtype: String,
        cwd: Option<String>,
        session_id: String,
        model: String,
        permission_mode: Option<String>,
        tools: Vec<String>,
        mcp_servers: Option<Json>,
        version: String,
    },
    /// A full assistant message.
    Assistant { message: Json, session_id: String },
    /// A tool result on its way back to the model.
    User { message: Json, session_id: String },
    /// The end of a turn.
    Result {
        subtype: String,
        is_error: bool,
        result: String,
        session_id: String,
        total_cost_usd: Option<serde_json::Number>,
        duration_ms: u64,
        num_turns: u64,
        model: String,
        stop_reason: Option<String>,
        usage: Json,
        model_usage: Json,
    },
}

/// A list of strings.
pub open spec fn text_items(items: Seq<Seq<char>>) -> Tree {
    Tree::Array(Seq::new(items.len(), |i: int| Tree::Str(items[i])))
}

/// The entries and, if there is one, one more value.
pub open spec fn maybe_json(
    entries: Seq<(Seq<char>, Tree)>,
    key: Seq<char>,
    value: Option<Json>,
) -> Seq<(Seq<char>, Tree)> {
    match value {
        Some(value) => entries.push((key, value@)),
        None => entries,
    }
}

/// The view of a line is the JSON object that is written for it: its kind under
/// `type`, then its fields, absent ones left out.
impl View for ClaudeLine {
    type V = Tree;

    open spec fn view(&self) -> Tree {
        match self {
            ClaudeLine::System {
                subtype,
                cwd,
                session_id,
                model,
                permission_mode,
                tools,
                mcp_servers,
                version,
            } => {
                let head = maybe_text(
                    seq![text_entry("type"@, "system"@), text_entry("subtype"@, subtype@)],
                    "cwd"@,
                    text::opt_view(*cwd),
                );
                let named = maybe_text(
                    head.push(text_entry("session_id"@, session_id@)).push(
                        text_entry("model"@, model@),
                    ),
                    "permissionMode"@,
                    text::opt_view(*permission_mode),
                );
                let listed = maybe_json(
                    named.push(("tools"@, text_items(text::views(tools@)))),
                    "mcpServers"@,
                    *mcp_servers,
                );
                Tree::Object(listed.push(text_entry("version"@, version@)))
            },
            ClaudeLine::Assistant { message, session_id } => Tree::Object(
                seq![
                    text_entry("type"@, "assistant"@),
                    ("message"@, message@),
                    text_entry("session_id"@, session_id@),
                ],
            ),
            ClaudeLine::User { message, session_id } => Tree::Object(
                seq![
                    text_entry("type"@, "user"@),
                    ("message"@, message@),
                    text_entry("session_id"@, session_id@),
                ],
            ),
            ClaudeLine::Result {
                subtype,
                is_error,
                result,
                session_id,
                total_cost_usd,
                duration_ms,
                num_turns,
                model,
                stop_reason,
                usage,
                model_usage,
            } => {
                let head = seq![
                    text_entry("type"@, "result"@),
                    text_entry("subtype"@, subtype@),
                    ("is_error"@, Tree::Bool(*is_error)),
                    text_entry("result"@, result@),
                    text_entry("session_id"@, session_id@),
                    ("total_cost_usd"@, money::price_tree(*total_cost_usd)),
                    uint_entry("duration_ms"@, *duration_ms as nat),
                    uint_entry("num_turns"@, *num_turns as nat),
                    text_entry("model"@, model@),
                ];
                Tree::Object(
                    maybe_text(head, "stop_reason"@, text::opt_view(*stop_reason)).push(
                        ("usage"@, usage@),
                    ).push(("modelUsage"@, model_usage@)),
                )
            },
        }
    }
}

fn text_array(items: &Vec<String>) -> (r: Json)
    ensures
        r@ == text_items(text::views(items@)),
{
    broadcast use json::group_json_view;

    let ghost all = text_items(text::views(items@))->Array_0;
    let mut out: Vec<Json> = Vec::new();
    let mut i: usize = 0;
    while i < items.len()
        invariant
            i <= items.len(),
            all == text_items(text::views(items@))->Array_0,
            json::trees(out@) =~= all.take(i as int),
        decreases items.len() - i,
    {
        proof {
            text::lemma_take_push(all, i as int);
        }
        out.push(Json::text(items[i].as_str()));
        i = i + 1;
    }
    assert(json::trees(out@) =~= all);
    Json::Array(out)
}

/// The JSON object that is written for a line.
pub fn line_json(line: &ClaudeLine) -> (r: Json)
    ensures
        r@ == line@,
{
    broadcast use json::group_json_view;

    let mut o: Vec<(String, Json)> = Vec::new();
    assert(json::entry_trees(o@) =~= Seq::empty());
    match line {
        ClaudeLine::System {
            subtype,
            cwd,
            session_id,
            model,
            permission_mode,
            tools,
            mcp_servers,
            version,
        } => {
            put_text(&mut o, "type", "system");
            put_text(&mut o, "subtype", subtype.as_str());
            put_maybe_text(&mut o, "cwd", cwd);
            put_text(&mut o, "session_id", session_id.as_str());
            put_text(&mut o, "model", model.as_str());
            put_maybe_text(&mut o, "permissionMode", permission_mode);
            put_json(&mut o, "tools", text_array(tools));
            match mcp_servers {
                Some(servers) => put_json(&mut o, "mcpServers", servers.clone()),
                None => {},
            }
            put_text(&mut o, "version", version.as_str());
        },
        ClaudeLine::Assistant { message, session_id } => {
            put_text(&mut o, "type", "assistant");
            put_json(&mut o, "message", message.clone());
            put_text(&mut o, "session_id", session_id.as_str());
        },
        ClaudeLine::User { message, session_id } => {
            put_text(&mut o, "type", "user");
            put_json(&mut o, "message", message.clone());
            put_text(&mut o, "session_id", session_id.as_str());
        },
        ClaudeLine::Result {
            subtype,
            is_error,
            result,
            session_id,
            total_cost_usd,
            duration_ms,
            num_turns,
            model,
            stop_reason,
            usage,
            model_usage,
        } => {
            put_text(&mut o, "type", "result");
            put_text(&mut o, "subtype", subtype.as_str());
            put_json(&mut o, "is_error", Json::Bool(*is_error));
            put_text(&mut o, "result", result.as_str());
            put_text(&mut o, "session_id", session_id.as_str());
            put_json(&mut o, "total_cost_usd", money::price_json(total_cost_usd));
            put_uint(&mut o, "duration_ms", *duration_ms);
            put_uint(&mut o, "num_turns", *num_turns);
            put_text(&mut o, "model", model.as_str());
            put_maybe_text(&mut o, "stop_reason", stop_reason);
            put_json(&mut o, "usage", usage.clone());
            put_json(&mut o, "modelUsage", model_usage.clone());
        },
    }
    assert(json::entry_trees(o@) =~= line@->Object_0);
    Json::Object(o)
}

/// Writes a line, without its line break.
pub fn to_ndjson(line: &ClaudeLine) -> (r: String)
    ensures
        r@ == json::json_text(json::settled(line@)),
        json::keyed(line@) ==> r@ == json::json_text(line@),
        forall|i: int| 0 <= i < r@.len() ==> #[trigger] r@[i] != '\n',
        json::shallow(json::settled(line@), 127) ==> json::json_parse(r@) == Some(
            json::settled(line@),
        ),
{
    proof {
        if json::keyed(line@) {
            json::lemma_keyed_is_settled(line@);
        }
    }
    line_json(line).to_text()
}

/// The `system` line of a run.
pub open spec fn system_tree(run: Run, tools: Seq<Seq<char>>) -> Tree {
    Tree::Object(
        seq![
            text_entry("type"@, "system"@),
            text_entry("subtype"@, "init"@),
            text_entry("cwd"@, run.cwd),
            text_entry("session_id"@, run.session_id),
            text_entry("model"@, run.model),
            text_entry("permissionMode"@, run.permission_mode),
            ("tools"@, text_items(tools)),
            ("mcpServers"@, Tree::Object(Seq::empty())),
            text_entry("version"@, VERSION@),
        ],
    )
}

/// Builds the `system` line that opens the output. `tools` names the active
/// tools.
pub fn system_init(ctx: &MapCtx, tools: Vec<String>) -> (r: ClaudeLine)
    ensures
        r@ == system_tree(ctx@, text::views(tools@)),
{
    broadcast use json::group_json_view;

    let servers: Vec<(String, Json)> = Vec::new();
    assert(json::entry_trees(servers@) =~= Seq::empty());
    let line = ClaudeLine::System {
        subtype: "init".to_string(),
        cwd: Some(ctx.cwd.clone()),
        session_id: ctx.session_id.clone(),
        model: ctx.model.clone(),
        permission_mode: Some(ctx.permission_mode.clone()),
        tools,
        mcp_servers: Some(Json::Object(servers)),
        version: VERSION.to_string(),
    };
    assert(line@->Object_0 =~= system_tree(ctx@, text::views(tools@))->Object_0);
    line
}

/// The content of an assistant message.
pub open spec fn blocks_tree(content: Seq<ContentBlock>) -> Tree {
    Tree::Array(Seq::new(content.len(), |i: int| block_tree(content[i])))
}

/// An assistant message. Its own model comes before the run's.
pub open spec fn assistant_message_tree(run: Run, a: AssistantMessage) -> Tree {
    Tree::Object(
        seq![
            text_entry(
                "id"@,
                match a.response_id {
                    Some(id) => id@,
                    None => "msg_0"@,
                },
            ),
            text_entry("type"@, "message"@),
            text_entry("role"@, "assistant"@),
            text_entry(
                "model"@,
                if a.model@.len() == 0 {
                    run.model
                } else {
                    a.model@
                },
            ),
            ("content"@, blocks_tree(a.content@)),
            text_entry("stop_reason"@, stop_label(a.stop_reason)),
            ("stop_sequence"@, Tree::Null),
            ("usage"@, usage_tree(a.usage.tokens())),
        ],
    )
}

/// The `assistant` line of a message.
pub open spec fn assistant_tree(run: Run, a: AssistantMessage) -> Tree {
    Tree::Object(
        seq![
            text_entry("type"@, "assistant"@),
            ("message"@, assistant_message_tree(run, a)),
            text_entry("session_id"@, run.session_id),
        ],
    )
}

/// The text parts of a tool's result.
pub open spec fn result_texts(content: Seq<ToolResultContent>) -> Seq<Seq<char>>
    decreases content.len(),
{
    if content.len() == 0 {
        Seq::empty()
    } else {
        let before = result_texts(content.drop_last());
        match content.last() {
            ToolResultContent::Text { text } => before.push(text@),
            _ => before,
        }
    }
}

/// The block of a tool result: its text parts on lines of their own.
pub open spec fn tool_result_block(t: ToolResultMessage) -> Tree {
    Tree::Object(
        seq![
            text_entry("type"@, "tool_result"@),
            text_entry("tool_use_id"@, t.tool_call_id@),
            text_entry("content"@, text::join(result_texts(t.content@), "\n"@)),
            ("is_error"@, Tree::Bool(t.is_error)),
        ],
    )
}

/// The message of a tool result.
pub open spec fn tool_result_message_tree(t: ToolResultMessage) -> Tree {
    Tree::Object(
        seq![
            text_entry("role"@, "user"@),
            ("content"@, Tree::Array(seq![tool_result_block(t)])),
        ],
    )
}

/// The `user` line of a tool result.
pub open spec fn tool_result_tree(run: Run, t: ToolResultMessage) -> Tree {
    Tree::Object(
        seq![
            text_entry("type"@, "user"@),
            ("message"@, tool_result_message_tree(t)),
            text_entry("session_id"@, run.session_id),
        ],
    )
}

/// Whether a run has failed: with an error, or by the stop reason of a message.
pub open spec fn failed(run: Run) -> bool {
    run.error is Some || run.failed_stop
}

/// The `result` line of a run: the text of the failure if it has one, else the
/// text spoken.
pub open spec fn result_tree(run: Run) -> Tree {
    let head = seq![
        text_entry("type"@, "result"@),
        text_entry(
            "subtype"@,
            if failed(run) {
                "error"@
            } else {
                "success"@
            },
        ),
        ("is_error"@, Tree::Bool(failed(run))),
        text_entry(
            "result"@,
            match run.error {
                Some(error) => error,
                None => run.final_text,
            },
        ),
        text_entry("session_id"@, run.session_id),
        ("total_cost_usd"@, money::price_tree(run.cost.total)),
        uint_entry("duration_ms"@, run.duration_ms as nat),
        uint_entry("num_turns"@, run.num_turns),
        text_entry("model"@, run.model),
    ];
    Tree::Object(
        maybe_text(head, "stop_reason"@, run.last_stop_reason).push(
            ("usage"@, usage_tree(run.usage)),
        ).push(("modelUsage"@, model_usage_tree(run.model, run.usage))),
    )
}

impl ClaudeLine {
    /// Builds the `assistant` line of a message.
    fn assistant(a: &AssistantMessage, ctx: &MapCtx) -> (r: ClaudeLine)
        ensures
            r@ == assistant_tree(ctx@, *a),
    {
        broadcast use json::group_json_view;

        let ghost all = blocks_tree(a.content@)->Array_0;
        let mut content: Vec<Json> = Vec::new();
        let mut i: usize = 0;
        while i < a.content.len()
            invariant
                i <= a.content.len(),
                all == blocks_tree(a.content@)->Array_0,
                json::trees(content@) =~= all.take(i as int),
            decreases a.content.len() - i,
        {
            proof {
                text::lemma_take_push(all, i as int);
            }
            content.push(map_content_block(&a.content[i]));
            i = i + 1;
        }
        assert(json::trees(content@) =~= all);
        let mut o: Vec<(String, Json)> = Vec::new();
        assert(json::entry_trees(o@) =~= Seq::empty());
        match &a.response_id {
            Some(id) => put_text(&mut o, "id", id.as_str()),
            None => put_text(&mut o, "id", "msg_0"),
        }
        put_text(&mut o, "type", "message");
        put_text(&mut o, "role", "assistant");
        if a.model.as_str().is_empty() {
            put_text(&mut o, "model", ctx.model.as_str());
        } else {
            put_text(&mut o, "model", a.model.as_str());
        }
        put_json(&mut o, "content", Json::Array(content));
        match map_stop_reason(a.stop_reason) {
            Some(label) => put_text(&mut o, "stop_reason", label),
            None => put_text(&mut o, "stop_reason", "end_turn"),
        }
        put_json(&mut o, "stop_sequence", Json::Null);
        put_json(&mut o, "usage", usage_tokens(&a.usage));
        assert(json::entry_trees(o@) =~= assistant_message_tree(ctx@, *a)->Object_0);
        ClaudeLine::Assistant { message: Json::Object(o), session_id: ctx.session_id.clone() }
    }

    /// Builds the `user` line of a tool result.
    fn user_tool_result(t: &ToolResultMessage, ctx: &MapCtx) -> (r: ClaudeLine)
        ensures
            r@ == tool_result_tree(ctx@, *t),
    {
        broadcast use {json::group_json_view, text::lemma_views_push};

        let ghost all = t.content@;
        let mut texts: Vec<String> = Vec::new();
        let mut i: usize = 0;
        assert(text::views(texts@) =~= result_texts(all.take(0)));
        while i < t.content.len()
            invariant
                i <= t.content.len(),
                all == t.content@,
                text::views(texts@) == result_texts(all.take(i as int)),
            decreases t.content.len() - i,
        {
            proof {
                assert(all.take(i + 1).drop_last() =~= all.take(i as int));
            }
            match &t.content[i] {
                ToolResultContent::Text { text } => {
                    texts.push(text.clone());
                },
                _ => {},
            }
            i = i + 1;
        }
        assert(all.take(i as int) =~= all);
        let joined = text::join_strings(&texts, "\n");
        let mut block: Vec<(String, Json)> = Vec::new();
        assert(json::entry_trees(block@) =~= Seq::empty());
        put_text(&mut block, "type", "tool_result");
        put_text(&mut block, "tool_use_id", t.tool_call_id.as_str());
        put_text(&mut block, "content", joined.as_str());
        put_json(&mut block, "is_error", Json::Bool(t.is_error));
        assert(json::entry_trees(block@) =~= tool_result_block(*t)->Object_0);
        let mut content: Vec<Json> = Vec::new();
        assert(json::trees(content@) =~= Seq::empty());
        content.push(Json::Object(block));
        assert(json::trees(content@) =~= seq![tool_result_block(*t)]);
        let mut o: Vec<(String, Json)> = Vec::new();
        assert(json::entry_trees(o@) =~= Seq::empty());
        put_text(&mut o, "role", "user");
        put_json(&mut o, "content", Json::Array(content));
        assert(json::entry_trees(o@) =~= tool_result_message_tree(*t)->Object_0);
        ClaudeLine::User { message: Json::Object(o), session_id: ctx.session_id.clone() }
    }

    /// Builds the `result` line from what was accumulated.
    fn result(ctx: &MapCtx) -> (r: ClaudeLine)
        ensures
            r@ == result_tree(ctx@),
    {
        let is_error = ctx.error.is_some() || ctx.failed_stop;
        let result = match &ctx.error {
            Some(error) => error.clone(),
            None => ctx.final_text.clone(),
        };
        let line = ClaudeLine::Result {
            subtype: if is_error {
                "error".to_string()
            } else {
                "success".to_string()
            },
            is_error,
            result,
            session_id: ctx.session_id.clone(),
            total_cost_usd: money::copy_price(&ctx.usage.cost.total),
            duration_ms: ctx.duration_ms,
            num_turns: ctx.num_turns as u64,
            model: ctx.model.clone(),
            stop_reason: text::copy_opt(&ctx.last_stop_reason),
            usage: usage_tokens(&ctx.usage),
            model_usage: per_model_usage(ctx.model.as_str(), &ctx.usage),
        };
        assert(line@->Object_0 =~= result_tree(ctx@)->Object_0);
        line
    }
}

// ---------------------------------------------------------------------------
// Events
// ---------------------------------------------------------------------------

/// The last text that an assistant message of a transcript carries.
pub open spec fn last_text(messages: Seq<Message>) -> Seq<char>
    decreases messages.len(),
{
    if messages.len() == 0 {
        Seq::empty()
    } else {
        match messages.last() {
            Message::Assistant(a) if text_of(a).len() > 0 => text_of(a),
            _ => last_text(messages.drop_last()),
        }
    }
}

/// The text of an assistant message.
pub open spec fn text_of(a: AssistantMessage) -> Seq<char> {
    a.text@
}

/// The context that a `result` line is written from: where nothing was spoken,
/// the text is recovered from the transcript.
pub open spec fn closing(run: Run, messages: Seq<Message>) -> Run {
    Run {
        final_text: if run.final_text.len() > 0 {
            run.final_text
        } else {
            last_text(messages)
        },
        ..run
    }
}

/// What an event leaves in the context. That a message stopped for a failure
/// counts for the turn it belongs to.
pub open spec fn advance(run: Run, ev: AgentEvent) -> Run {
    match ev {
        AgentEvent::Usage(u) => Run {
            usage: run.usage.plus(u.tokens()),
            cost: u.cost.summed(),
            ..run
        },
        AgentEvent::MessageEnd(Message::Assistant(a)) => Run {
            num_turns: run.num_turns + 1,
            error: match a.error_message {
                Some(error) => Some(error@),
                None => run.error,
            },
            failed_stop: run.failed_stop || failed_stop(a.stop_reason),
            last_stop_reason: Some(stop_label(a.stop_reason)),
            final_text: if text_of(a).len() > 0 {
                text_of(a)
            } else {
                run.final_text
            },
            ..run
        },
        AgentEvent::Error(msg) => Run { error: Some(msg@), ..run },
        AgentEvent::AgentEnd { messages } => Run {
            failed_stop: false,
            ..closing(run, messages@)
        },
        _ => run,
    }
}

/// The lines that an event produces. A prompt is not echoed, and a failure
/// waits for the `result` line.
pub open spec fn emitted(run: Run, ev: AgentEvent) -> Seq<Tree> {
    match ev {
        AgentEvent::MessageEnd(Message::Assistant(a)) => seq![assistant_tree(run, a)],
        AgentEvent::MessageEnd(Message::ToolResult(t)) => seq![tool_result_tree(run, t)],
        AgentEvent::AgentEnd { messages } => seq![result_tree(closing(run, messages@))],
        _ => Seq::empty(),
    }
}

/// Whether an event can be counted without overflow.
pub open spec fn countable(run: Run, ev: AgentEvent) -> bool {
    &&& advance(run, ev).usage.fits()
    &&& advance(run, ev).num_turns <= usize::MAX
}

/// The objects written for lines.
pub open spec fn line_trees(lines: Seq<ClaudeLine>) -> Seq<Tree> {
    Seq::new(lines.len(), |i: int| lines[i]@)
}

/// Whether an event can be counted without overflow.
pub fn can_map(ev: &AgentEvent, ctx: &MapCtx) -> (r: bool)
    ensures
        r == countable(ctx@, *ev),
{
    match ev {
        AgentEvent::Usage(u) => ctx.usage.can_add(u),
        AgentEvent::MessageEnd(Message::Assistant(_)) => ctx.num_turns < usize::MAX,
        _ => true,
    }
}

/// The last text that an assistant message of a transcript carries.
fn recover_text(messages: &Vec<Message>) -> (r: String)
    ensures
        r@ == last_text(messages@),
{
    let ghost all = messages@;
    let mut i: usize = messages.len();
    assert(all.take(i as int) =~= all);
    while i > 0
        invariant
            i <= messages.len(),
            all == messages@,
            last_text(all) == last_text(all.take(i as int)),
        decreases i,
    {
        i = i - 1;
        assert(all.take(i + 1).drop_last() =~= all.take(i as int));
        match &messages[i] {
            Message::Assistant(a) => {
                let t = a.text_content();
                if !t.as_str().is_empty() {
                    return t;
                }
            },
            _ => {},
        }
    }
    String::new()
}

/// Maps one event to its lines and advances the context.
pub fn map_events(ev: &AgentEvent, ctx: &mut MapCtx) -> (lines: Vec<ClaudeLine>)
    requires
        countable(old(ctx)@, *ev),
    ensures
        final(ctx)@ == advance(old(ctx)@, *ev),
        line_trees(lines@) == emitted(old(ctx)@, *ev),
{
    let mut out: Vec<ClaudeLine> = Vec::new();
    match ev {
        AgentEvent::Usage(u) => {
            ctx.usage.add(u);
        },
        AgentEvent::MessageEnd(msg) => {
            match msg {
                Message::Assistant(a) => {
                    ctx.num_turns = ctx.num_turns + 1;
                    if let Some(error) = &a.error_message {
                        ctx.error = Some(error.clone());
                    }
                    if a.stop_reason == StopReason::Error || a.stop_reason == StopReason::Aborted {
                        ctx.failed_stop = true;
                    }
                    ctx.last_stop_reason = match map_stop_reason(a.stop_reason) {
                        Some(label) => Some(label.to_string()),
                        None => None,
                    };
                    let t = a.text_content();
                    if !t.as_str().is_empty() {
                        ctx.final_text = t;
                    }
                    out.push(ClaudeLine::assistant(a, ctx));
                },
                Message::ToolResult(t) => {
                    out.push(ClaudeLine::user_tool_result(t, ctx));
                },
                Message::User(_) => {},
            }
        },
        AgentEvent::Error(msg) => {
            ctx.error = Some(msg.clone());
        },
        AgentEvent::AgentEnd { messages } => {
            if ctx.final_text.as_str().is_empty() {
                ctx.final_text = recover_text(messages);
            }
            out.push(ClaudeLine::result(ctx));
            ctx.failed_stop = false;
        },
        _ => {},
    }
    assert(line_trees(out@) =~= emitted(old(ctx)@, *ev));
    out
}

} // verus!
