//! Plain records produced by parsing a session log.
use vstd::prelude::*;

verus! {

/// Token usage from a single assistant turn.
#[derive(Debug, Clone, Copy, PartialEq, Eq, Structural)]
pub struct TokenUsage {
    pub input_tokens: u64,
    pub output_tokens: u64,
    pub cache_creation_input_tokens: u64,
    pub cache_read_input_tokens: u64,
}

impl TokenUsage {
    /// Usage with every count zero.
    pub fn zero() -> (r: TokenUsage)
        ensures
            r.input_tokens == 0,
            r.output_tokens == 0,
            r.cache_creation_input_tokens == 0,
            r.cache_read_input_tokens == 0,
    {
        TokenUsage {
            input_tokens: 0,
            output_tokens: 0,
            cache_creation_input_tokens: 0,
            cache_read_input_tokens: 0,
        }
    }
}

/// A point in time: whole seconds since the Unix epoch and the nanoseconds
/// past that second.
#[derive(Debug, Clone, Copy, PartialEq, Eq, Structural)]
pub struct Timestamp {
    pub secs: i64,
    pub nanos: u32,
}

impl Timestamp {
    /// Nanoseconds since the Unix epoch.
    pub open spec fn spec_nanos(self) -> int {
        self.secs * 1_000_000_000 + self.nanos
    }

    /// Nanoseconds since the Unix epoch.
    pub fn total_nanos(&self) -> (r: i128)
        ensures
            r == self.spec_nanos(),
    {
        (self.secs as i128) * 1_000_000_000 + (self.nanos as i128)
    }

    /// The position of the instant in time order: seconds first, then the
    /// nanoseconds past the second.  A leap second, whose nanoseconds reach
    /// one second or more, comes before the next second.
    pub open spec fn spec_order(self) -> int {
        self.secs * 0x1_0000_0000 + self.nanos
    }

    /// The position of the instant in time order.
    pub fn order_key(&self) -> (r: i128)
        ensures
            r == self.spec_order(),
    {
        (self.secs as i128) * 0x1_0000_0000 + (self.nanos as i128)
    }

    /// Whether `self` is no later than `other` in time order.
    pub fn not_after(&self, other: &Timestamp) -> (r: bool)
        ensures
            r == (self.spec_order() <= other.spec_order()),
    {
        self.order_key() <= other.order_key()
    }
}

/// A single tool invocation within an assistant turn.
#[derive(Debug)]
pub struct ToolUseInfo {
    pub name: String,
    pub tool_use_id: String,
    pub file_path: Option<String>,
}

impl View for ToolUseInfo {
    type V = (Seq<char>, Seq<char>, Option<Seq<char>>);

    open spec fn view(&self) -> Self::V {
        (self.name@, self.tool_use_id@, crate::text::opt_view(self.file_path))
    }
}

/// A single assistant turn (one model response).
#[derive(Debug)]
pub struct AssistantTurn {
    pub request_id: String,
    pub model: String,
    pub usage: TokenUsage,
    pub tools: Vec<ToolUseInfo>,
    pub stop_reason: Option<String>,
    pub timestamp: Timestamp,
    pub is_sidechain: bool,
}

/// An assistant turn as a value.
pub type TurnView = (
    Seq<char>,
    Seq<char>,
    TokenUsage,
    Seq<(Seq<char>, Seq<char>, Option<Seq<char>>)>,
    Option<Seq<char>>,
    Timestamp,
    bool,
);

impl View for AssistantTurn {
    type V = TurnView;

    open spec fn view(&self) -> TurnView {
        (
            self.request_id@,
            self.model@,
            self.usage,
            self.tools@.map_values(|t: ToolUseInfo| t@),
            crate::text::opt_view(self.stop_reason),
            self.timestamp,
            self.is_sidechain,
        )
    }
}

impl crate::sort::SortKey for AssistantTurn {
    open spec fn spec_key(&self) -> int {
        self.timestamp.spec_order()
    }

    fn sort_key(&self) -> (r: i128) {
        self.timestamp.order_key()
    }
}

/// Token usage aggregated per model within a session.
#[derive(Debug)]
pub struct ModelUsage {
    pub model: String,
    pub turn_count: u64,
    pub total_input: u64,
    pub total_output: u64,
    pub total_cache_creation: u64,
    pub total_cache_read: u64,
}

impl View for ModelUsage {
    type V = (Seq<char>, u64, u64, u64, u64, u64);

    open spec fn view(&self) -> Self::V {
        (
            self.model@,
            self.turn_count,
            self.total_input,
            self.total_output,
            self.total_cache_creation,
            self.total_cache_read,
        )
    }
}

impl crate::sort::SortKey for ModelUsage {
    open spec fn spec_key(&self) -> int {
        self.turn_count as int
    }

    fn sort_key(&self) -> (r: i128) {
        self.turn_count as i128
    }
}

/// Invocation count of one tool.
#[derive(Debug)]
pub struct ToolUsageStat {
    pub name: String,
    pub invocation_count: u64,
}

impl View for ToolUsageStat {
    type V = (Seq<char>, u64);

    open spec fn view(&self) -> Self::V {
        (self.name@, self.invocation_count)
    }
}

impl crate::sort::SortKey for ToolUsageStat {
    open spec fn spec_key(&self) -> int {
        self.invocation_count as int
    }

    fn sort_key(&self) -> (r: i128) {
        self.invocation_count as i128
    }
}

/// A context compression: the cache-read count of a turn dropped by more
/// than 80% from the previous turn of the same model.  The dropped fraction
/// is `(cache_read_before - cache_read_after) / cache_read_before`.
#[derive(Debug, Clone, Copy, PartialEq, Eq, Structural)]
pub struct CompressionEvent {
    pub turn_index: usize,
    pub timestamp: Timestamp,
    pub cache_read_before: u64,
    pub cache_read_after: u64,
}

/// Complete parse result of one session log.
#[derive(Debug)]
pub struct ParseResult {
    pub session_id: String,
    pub project_path: String,
    pub is_subagent: bool,
    pub agent_id: Option<String>,
    pub first_timestamp: Option<Timestamp>,
    pub last_timestamp: Option<Timestamp>,
    pub assistant_turns: Vec<AssistantTurn>,
    pub model_usage: Vec<ModelUsage>,
    pub tool_usage: Vec<ToolUsageStat>,
    pub compression_events: Vec<CompressionEvent>,
    pub total_turns: u64,
    pub total_input_tokens: u64,
    pub total_output_tokens: u64,
    pub total_cache_creation_tokens: u64,
    pub total_cache_read_tokens: u64,
    pub failed_lines: u64,
    pub total_lines: u64,
    pub turn_durations_ms: Vec<u64>,
}

impl ParseResult {
    /// All four token totals of the session add up to a count that fits in `u64`.
    pub open spec fn totals_fit(&self) -> bool {
        self.total_input_tokens + self.total_output_tokens + self.total_cache_creation_tokens
            + self.total_cache_read_tokens <= u64::MAX
    }
}

} // verus!
