//! What the agent core reports: messages, token usage and run events.

use vstd::prelude::*;

use crate::json::Json;
use crate::money;

verus! {

/// Prices in US dollars. They are floating-point numbers, which are summed where
/// they are reported and only written out here: each is the JSON number of the
/// float, or nothing where the float is not finite.
#[derive(Debug, PartialEq, Eq)]
pub struct Cost {
    /// The price of what was used.
    pub total: Option<serde_json::Number>,
    /// The sum of the prices up to and with this one.
    pub so_far: Option<serde_json::Number>,
}

/// Token counts and price of one turn, or of several.
#[derive(Debug, PartialEq, Eq)]
pub struct Usage {
    pub input: u64,
    pub output: u64,
    pub cache_read: u64,
    pub cache_write: u64,
    pub cost: Cost,
}

/// Token counts as unbounded numbers.
pub struct Totals {
    pub input: nat,
    pub output: nat,
    pub cache_read: nat,
    pub cache_write: nat,
}

impl Totals {
    /// Nothing used.
    pub open spec fn zero() -> Totals {
        Totals { input: 0, output: 0, cache_read: 0, cache_write: 0 }
    }

    /// Field by field sum.
    pub open spec fn plus(self, other: Totals) -> Totals {
        Totals {
            input: self.input + other.input,
            output: self.output + other.output,
            cache_read: self.cache_read + other.cache_read,
            cache_write: self.cache_write + other.cache_write,
        }
    }

    /// Whether every field fits a machine word.
    pub open spec fn fits(self) -> bool {
        &&& self.input <= u64::MAX
        &&& self.output <= u64::MAX
        &&& self.cache_read <= u64::MAX
        &&& self.cache_write <= u64::MAX
    }
}

impl Cost {
    /// The price of everything up to and with this one.
    pub open spec fn summed(self) -> Cost {
        Cost { total: self.so_far, so_far: self.so_far }
    }
}

impl Clone for Cost {
    fn clone(&self) -> (r: Cost)
        ensures
            r == *self,
    {
        Cost { total: money::copy_price(&self.total), so_far: money::copy_price(&self.so_far) }
    }
}

impl Default for Cost {
    fn default() -> (r: Cost)
        ensures
            r == (Cost { total: money::zero_price(), so_far: money::zero_price() }),
    {
        Cost { total: money::no_price(), so_far: money::no_price() }
    }
}

impl Usage {
    /// The token counts.
    pub open spec fn tokens(self) -> Totals {
        Totals {
            input: self.input as nat,
            output: self.output as nat,
            cache_read: self.cache_read as nat,
            cache_write: self.cache_write as nat,
        }
    }
}

impl Clone for Usage {
    fn clone(&self) -> (r: Usage)
        ensures
            r == *self,
    {
        Usage {
            input: self.input,
            output: self.output,
            cache_read: self.cache_read,
            cache_write: self.cache_write,
            cost: self.cost.clone(),
        }
    }
}

impl Default for Usage {
    fn default() -> (r: Usage)
        ensures
            r.tokens() == Totals::zero(),
            r.cost == (Cost { total: money::zero_price(), so_far: money::zero_price() }),
    {
        Usage { input: 0, output: 0, cache_read: 0, cache_write: 0, cost: Cost::default() }
    }
}

impl Usage {
    /// Whether another count can be added without overflow.
    pub fn can_add(&self, other: &Usage) -> (r: bool)
        ensures
            r == self.tokens().plus(other.tokens()).fits(),
    {
        self.input <= u64::MAX - other.input && self.output <= u64::MAX - other.output
            && self.cache_read <= u64::MAX - other.cache_read && self.cache_write <= u64::MAX
            - other.cache_write
    }

    /// Adds the token counts of one more turn, field by field, and takes over the
    /// sum of the prices that comes with it.
    pub fn add(&mut self, other: &Usage)
        requires
            old(self).tokens().plus(other.tokens()).fits(),
        ensures
            final(self).tokens() == old(self).tokens().plus(other.tokens()),
            final(self).cost == other.cost.summed(),
    {
        self.input = self.input + other.input;
        self.output = self.output + other.output;
        self.cache_read = self.cache_read + other.cache_read;
        self.cache_write = self.cache_write + other.cache_write;
        self.cost = Cost {
            total: money::copy_price(&other.cost.so_far),
            so_far: money::copy_price(&other.cost.so_far),
        };
    }
}

/// Why the model stopped.
#[derive(Debug, Clone, Copy, PartialEq, Eq, Structural)]
pub enum StopReason {
    Stop,
    Length,
    ToolUse,
    Error,
    Aborted,
}

/// One block of an assistant message.
#[derive(Debug, Clone)]
pub enum ContentBlock {
    Text { text: String },
    Thinking { thinking: String, signature: Option<String>, redacted: bool },
    ToolCall { id: String, name: String, arguments: Json },
}

/// A message of the model.
#[derive(Debug, Clone)]
pub struct AssistantMessage {
    pub content: Vec<ContentBlock>,
    /// The text of the message, as the core reads it from the content.
    pub text: String,
    pub model: String,
    pub response_id: Option<String>,
    pub usage: Usage,
    pub stop_reason: StopReason,
    pub error_message: Option<String>,
}

impl AssistantMessage {
    /// A message without content.
    pub fn empty() -> (r: AssistantMessage)
        ensures
            r.content@.len() == 0,
            r.text@.len() == 0,
            r.model@.len() == 0,
            r.response_id is None,
            r.usage.tokens() == Totals::zero(),
            r.usage.cost == (Cost { total: money::zero_price(), so_far: money::zero_price() }),
            r.stop_reason == StopReason::Stop,
            r.error_message is None,
    {
        AssistantMessage {
            content: Vec::new(),
            text: String::new(),
            model: String::new(),
            response_id: None,
            usage: Usage::default(),
            stop_reason: StopReason::Stop,
            error_message: None,
        }
    }

    /// The text of the message.
    pub fn text_content(&self) -> (r: String)
        ensures
            r@ == self.text@,
    {
        self.text.clone()
    }
}

/// A prompt.
#[derive(Debug, Clone)]
pub struct UserMessage {
    pub content: String,
}

impl UserMessage {
    /// A prompt with the given text.
    pub fn text(content: String) -> (r: UserMessage)
        ensures
            r.content == content,
    {
        UserMessage { content }
    }

    /// The text of the prompt.
    pub fn text_content(&self) -> (r: &str)
        ensures
            r@ == self.content@,
    {
        self.content.as_str()
    }
}

/// One part of a tool's result.
#[derive(Debug, Clone)]
pub enum ToolResultContent {
    Text { text: String },
    Image { data: String, mime_type: String },
}

impl ToolResultContent {
    /// A text part.
    pub fn text(s: &str) -> (r: ToolResultContent)
        ensures
            r matches ToolResultContent::Text { text } && text@ == s@,
    {
        ToolResultContent::Text { text: s.to_string() }
    }
}

/// The result of a tool call, on its way back to the model.
#[derive(Debug, Clone)]
pub struct ToolResultMessage {
    pub tool_call_id: String,
    pub tool_name: String,
    pub content: Vec<ToolResultContent>,
    pub is_error: bool,
    pub timestamp: u64,
}

/// A message of the transcript.
#[derive(Debug, Clone)]
pub enum Message {
    User(UserMessage),
    Assistant(AssistantMessage),
    ToolResult(ToolResultMessage),
}

/// A piece of a streaming assistant message.
#[derive(Debug, Clone)]
pub enum AssistantMessageEvent {
    TextDelta { delta: String },
    ThinkingDelta { delta: String },
    /// Block boundaries and partial tool calls.
    Other,
}

/// What happens during a run.
#[derive(Debug, Clone)]
pub enum AgentEvent {
    MessageStart(Message),
    MessageUpdate { event: AssistantMessageEvent },
    MessageEnd(Message),
    ToolExecutionStart { tool_name: String, args: Json },
    ToolExecutionEnd { is_error: bool },
    TurnEnd { message: AssistantMessage },
    /// The tokens of one assistant turn.
    Usage(Usage),
    /// A failure that ends the run.
    Error(String),
    AgentEnd { messages: Vec<Message> },
    /// Run and turn boundaries that carry nothing.
    Other,
}

/// How much the model thinks before it answers.
#[derive(Debug, Clone, Copy, PartialEq, Eq, Structural)]
pub enum ThinkingLevel {
    Off,
    Minimal,
    Low,
    Medium,
    High,
    XHigh,
}

} // verus!
