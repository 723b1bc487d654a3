//! Parsing of session logs.
//!
//! A session log holds one JSON record per line.  [`crate::text::record_lines`]
//! splits a log into its record lines; each line is read as a JSON document
//! (a line that is no JSON is a failed line), and [`parse_session`] turns the
//! records into a [`ParseResult`].
//!
//! Assistant records are deduplicated by request id: a record with a stop
//! reason (a final record) replaces an earlier one of the same request, a
//! record without one (a partial record) is kept only when the request has no
//! record yet.  Records of other types are skipped, except that system
//! records contribute their turn duration.
use vstd::prelude::*;

use crate::json::{
    as_array, as_bool, as_str, as_u64, deref_opt, get, get_opt, json_as_array, json_as_bool,
    json_as_str, json_as_u64, json_get, json_get_opt, parse_records, spec_records, JsonValue,
};
use crate::paths::{file_name, file_stem, parent, std_file_name, std_file_stem, std_parent};
use crate::decimal::{percent_tenths, percent_tenths_exec};
use crate::text::{opt_view, str_contains, contains_seq};
use crate::sort::{ordered_by_key, sort_by_key, views};
use crate::types::{
    AssistantTurn, CompressionEvent, ModelUsage, ParseResult, Timestamp, TokenUsage, ToolUsageStat,
    ToolUseInfo, TurnView,
};
use vstd::string::StringExecFns;

verus! {

// ============================================================
// Timestamps
// ============================================================
/// What chrono's `FromStr` for `DateTime<Utc>` yields for `text`: the
/// instant as whole seconds since the epoch and nanoseconds past the second.
pub uninterp spec fn chrono_parse_utc(text: Seq<char>) -> Option<Timestamp>;

/// Calls `text.parse::<chrono::DateTime<chrono::Utc>>()` and returns the
/// instant as seconds since the epoch and the nanoseconds past that second
/// (`DateTime::timestamp`, `DateTime::timestamp_subsec_nanos`).  The contract
/// only names the result.
#[verifier::external_body]
pub(crate) fn parse_timestamp(text: &str) -> (r: Option<Timestamp>)
    ensures
        r == chrono_parse_utc(text@),
{
    text.parse::<chrono::DateTime<chrono::Utc>>().ok().map(
        |d| Timestamp { secs: d.timestamp(), nanos: d.timestamp_subsec_nanos() },
    )
}

// ============================================================
// Record fields
// ============================================================
pub open spec fn or_zero(o: Option<u64>) -> u64 {
    match o {
        Some(n) => n,
        None => 0,
    }
}

pub open spec fn or_text(o: Option<Seq<char>>, default: Seq<char>) -> Seq<char> {
    match o {
        Some(s) => s,
        None => default,
    }
}

/// The token usage read from a `usage` member (all zero when it is missing).
pub open spec fn spec_usage(u: Option<JsonValue>) -> TokenUsage {
    match u {
        None => TokenUsage {
            input_tokens: 0,
            output_tokens: 0,
            cache_creation_input_tokens: 0,
            cache_read_input_tokens: 0,
        },
        Some(x) => TokenUsage {
            input_tokens: or_zero(json_as_u64(json_get(x, "input_tokens"@))),
            output_tokens: or_zero(json_as_u64(json_get(x, "output_tokens"@))),
            cache_creation_input_tokens: or_zero(
                json_as_u64(json_get(x, "cache_creation_input_tokens"@)),
            ),
            cache_read_input_tokens: or_zero(json_as_u64(json_get(x, "cache_read_input_tokens"@))),
        },
    }
}

/// The tool invocation described by a content item, if it is a `tool_use`
/// item with a name and an id.  Its file path is the `file_path` member of
/// its `input`, when that is a string.
pub open spec fn spec_tool(item: JsonValue) -> Option<(Seq<char>, Seq<char>, Option<Seq<char>>)> {
    if json_as_str(json_get(item, "type"@)) == Some("tool_use"@) {
        match (json_as_str(json_get(item, "name"@)), json_as_str(json_get(item, "id"@))) {
            (Some(n), Some(i)) => Some(
                (n, i, json_as_str(json_get_opt(json_get(item, "input"@), "file_path"@))),
            ),
            _ => None,
        }
    } else {
        None
    }
}

/// The tool invocations among content items, in order.
pub open spec fn spec_tools_of(items: Seq<JsonValue>) -> Seq<(Seq<char>, Seq<char>, Option<Seq<char>>)>
    decreases items.len(),
{
    if items.len() == 0 {
        seq![]
    } else {
        spec_tools_of(items.drop_last()) + match spec_tool(items.last()) {
            Some(t) => seq![t],
            None => Seq::empty(),
        }
    }
}

/// The tool invocations of a `content` member (none unless it is an array).
pub open spec fn spec_tools(content: Option<JsonValue>) -> Seq<(Seq<char>, Seq<char>, Option<Seq<char>>)> {
    match json_as_array(content) {
        Some(items) => spec_tools_of(items),
        None => seq![],
    }
}

/// The request id of a record, or a fallback derived from its `uuid`.
pub open spec fn spec_request_id(v: JsonValue) -> Seq<char> {
    match json_as_str(json_get(v, "requestId"@)) {
        Some(s) => s,
        None => "_no_request_id_"@ + or_text(json_as_str(json_get(v, "uuid"@)), "unknown"@),
    }
}

/// The assistant turn an assistant record describes; nothing when it lacks a
/// parseable `timestamp` or a `message`.
pub open spec fn spec_assistant(v: JsonValue) -> Option<TurnView> {
    match json_as_str(json_get(v, "timestamp"@)) {
        None => None,
        Some(ts) => match chrono_parse_utc(ts) {
            None => None,
            Some(t) => match json_get(v, "message"@) {
                None => None,
                Some(m) => Some(
                    (
                        spec_request_id(v),
                        or_text(json_as_str(json_get(m, "model"@)), "unknown"@),
                        spec_usage(json_get(m, "usage"@)),
                        spec_tools(json_get(m, "content"@)),
                        json_as_str(json_get(m, "stop_reason"@)),
                        t,
                        match json_as_bool(json_get(v, "isSidechain"@)) {
                            Some(b) => b,
                            None => false,
                        },
                    ),
                ),
            },
        },
    }
}

fn key(s: &str) -> (r: String)
    ensures
        r@ == s@,
{
    String::from_str(s)
}

fn u64_or_zero(o: Option<u64>) -> (r: u64)
    ensures
        r == or_zero(o),
{
    match o {
        Some(n) => n,
        None => 0,
    }
}

/// Parse token usage from the usage JSON object.
fn parse_usage(usage_value: Option<&JsonValue>) -> (r: TokenUsage)
    ensures
        r == spec_usage(deref_opt(usage_value)),
{
    match usage_value {
        None => TokenUsage::zero(),
        Some(u) => TokenUsage {
            input_tokens: u64_or_zero(as_u64(get(u, &key("input_tokens")))),
            output_tokens: u64_or_zero(as_u64(get(u, &key("output_tokens")))),
            cache_creation_input_tokens: u64_or_zero(
                as_u64(get(u, &key("cache_creation_input_tokens"))),
            ),
            cache_read_input_tokens: u64_or_zero(as_u64(get(u, &key("cache_read_input_tokens")))),
        },
    }
}

fn clone_opt(s: Option<&String>) -> (r: Option<String>)
    ensures
        opt_view(r) == match s {
            Some(x) => Some(x@),
            None => None::<Seq<char>>,
        },
{
    match s {
        Some(x) => Some(x.clone()),
        None => None,
    }
}

fn parse_tool(item: &JsonValue) -> (r: Option<ToolUseInfo>)
    ensures
        match r {
            Some(t) => spec_tool(*item) == Some(t@),
            None => spec_tool(*item) is None,
        },
{
    let ty = as_str(get(item, &key("type")));
    let tool_use = key("tool_use");
    match ty {
        Some(t) => {
            if *t != tool_use {
                return None;
            }
        },
        None => {
            return None;
        },
    }
    let name = as_str(get(item, &key("name")));
    let id = as_str(get(item, &key("id")));
    match (name, id) {
        (Some(n), Some(i)) => {
            let input = get(item, &key("input"));
            let path = clone_opt(as_str(get_opt(input, &key("file_path"))));
            Some(ToolUseInfo { name: n.clone(), tool_use_id: i.clone(), file_path: path })
        },
        _ => None,
    }
}

/// Parse the `tool_use` entries of a content array.
fn parse_tools(content_value: Option<&JsonValue>) -> (r: Vec<ToolUseInfo>)
    ensures
        r@.map_values(|t: ToolUseInfo| t@) == spec_tools(deref_opt(content_value)),
{
    let mut out: Vec<ToolUseInfo> = Vec::new();
    match as_array(content_value) {
        None => {
            assert(out@.map_values(|t: ToolUseInfo| t@) =~= spec_tools(deref_opt(content_value)));
            out
        },
        Some(items) => {
            let mut i: usize = 0;
            while i < items.len()
                invariant
                    i <= items.len(),
                    out@.map_values(|t: ToolUseInfo| t@) == spec_tools_of(items@.take(i as int)),
                decreases items.len() - i,
            {
                assert(items@.take(i + 1).drop_last() =~= items@.take(i as int));
                let ghost before = out@;
                match parse_tool(&items[i]) {
                    Some(t) => {
                        out.push(t);
                    },
                    None => {},
                }
                assert(out@.map_values(|t: ToolUseInfo| t@) =~= spec_tools_of(
                    items@.take(i + 1),
                ));
                i = i + 1;
            }
            assert(items@.take(items.len() as int) =~= items@);
            out
        },
    }
}

/// Parse an assistant record into an [`AssistantTurn`].
///
/// Returns nothing when the timestamp or the message is missing, or the
/// timestamp does not parse.  A record without a `requestId` gets the id
/// `_no_request_id_<uuid>` (with `unknown` for a missing uuid).
pub fn parse_assistant_record(value: &JsonValue) -> (r: Option<AssistantTurn>)
    ensures
        match r {
            Some(t) => spec_assistant(*value) == Some(t@),
            None => spec_assistant(*value) is None,
        },
{
    let request_id = match as_str(get(value, &key("requestId"))) {
        Some(s) => s.clone(),
        None => {
            let mut id = String::from_str("_no_request_id_");
            match as_str(get(value, &key("uuid"))) {
                Some(u) => id.append(u.as_str()),
                None => id.append("unknown"),
            }
            id
        },
    };
    let ts_text = match as_str(get(value, &key("timestamp"))) {
        Some(t) => t,
        None => {
            return None;
        },
    };
    let timestamp = match parse_timestamp(ts_text.as_str()) {
        Some(t) => t,
        None => {
            return None;
        },
    };
    let is_sidechain = match as_bool(get(value, &key("isSidechain"))) {
        Some(b) => b,
        None => false,
    };
    let message = match get(value, &key("message")) {
        Some(m) => m,
        None => {
            return None;
        },
    };
    let model = match as_str(get(message, &key("model"))) {
        Some(m) => m.clone(),
        None => String::from_str("unknown"),
    };
    let stop_reason = clone_opt(as_str(get(message, &key("stop_reason"))));
    let usage = parse_usage(get(message, &key("usage")));
    let tools = parse_tools(get(message, &key("content")));
    let turn = AssistantTurn { request_id, model, usage, tools, stop_reason, timestamp, is_sidechain };
    assert(turn@.3 =~= spec_tools(json_get(*message, "content"@)));
    Some(turn)
}

// ============================================================
// Path metadata
// ============================================================
pub open spec fn opt_parent(p: Option<Seq<char>>) -> Option<Seq<char>> {
    match p {
        Some(x) => std_parent(x),
        None => None,
    }
}

pub open spec fn opt_file_name(p: Option<Seq<char>>) -> Option<Seq<char>> {
    match p {
        Some(x) => std_file_name(x),
        None => None,
    }
}

/// Session id, project path, subagent flag and agent id of a log file:
/// a main session is `.../<project>/<session>.jsonl`, a subagent log is
/// `.../<project>/<session>/subagents/agent-<id>.jsonl`.
pub open spec fn spec_path_metadata(path: Seq<char>) -> (Seq<char>, Seq<char>, bool, Option<Seq<char>>) {
    let sub = contains_seq(path, "/subagents/"@);
    let stem = or_text(std_file_stem(path), "unknown"@);
    if sub {
        (
            or_text(opt_file_name(opt_parent(std_parent(path))), "unknown"@),
            or_text(opt_parent(opt_parent(std_parent(path))), "unknown"@),
            true,
            Some(stem),
        )
    } else {
        (stem, or_text(std_parent(path), "unknown"@), false, None)
    }
}

pub(crate) fn text_or_unknown(o: Option<String>) -> (r: String)
    ensures
        r@ == or_text(opt_view(o), "unknown"@),
{
    match o {
        Some(s) => s,
        None => String::from_str("unknown"),
    }
}

fn parent_of(p: Option<String>) -> (r: Option<String>)
    ensures
        opt_view(r) == opt_parent(opt_view(p)),
{
    match p {
        Some(x) => parent(x.as_str()),
        None => None,
    }
}

pub(crate) fn file_name_of(p: Option<String>) -> (r: Option<String>)
    ensures
        opt_view(r) == opt_file_name(opt_view(p)),
{
    match p {
        Some(x) => file_name(x.as_str()),
        None => None,
    }
}

/// Extract session id, project path, subagent flag and agent id from the
/// path of a log file.
pub fn extract_path_metadata(path: &str) -> (r: (String, String, bool, Option<String>))
    ensures
        (r.0@, r.1@, r.2, opt_view(r.3)) == spec_path_metadata(path@),
{
    let is_subagent = str_contains(path, "/subagents/");
    let stem = text_or_unknown(file_stem(path));
    if is_subagent {
        let session_id = text_or_unknown(file_name_of(parent_of(parent(path))));
        let project_path = text_or_unknown(parent_of(parent_of(parent(path))));
        (session_id, project_path, true, Some(stem))
    } else {
        let project_path = text_or_unknown(parent(path));
        (stem, project_path, false, None)
    }
}


// ============================================================
// Scanning records
// ============================================================
/// Index of the first turn with request id `id`, or -1.
pub open spec fn find_id(list: Seq<TurnView>, id: Seq<char>) -> int
    decreases list.len(),
{
    if list.len() == 0 {
        -1
    } else {
        let k = find_id(list.drop_last(), id);
        if k >= 0 {
            k
        } else if list.last().0 == id {
            list.len() - 1
        } else {
            -1
        }
    }
}

/// Records turn `t`: a final turn (one with a stop reason) replaces the
/// turn of the same request, a partial one is kept only for a new request.
pub open spec fn dedup_insert(list: Seq<TurnView>, t: TurnView) -> Seq<TurnView> {
    let k = find_id(list, t.0);
    if k >= 0 {
        if t.4 is Some {
            list.update(k, t)
        } else {
            list
        }
    } else {
        list.push(t)
    }
}

/// What scanning the records gathers: the deduplicated turns (in order of
/// their first record), the turn durations of system records, and the
/// number of failed records.
pub type ScanState = (Seq<TurnView>, Seq<u64>, nat);

/// The record type of a record (empty when it has none).
pub open spec fn record_type(v: JsonValue) -> Seq<char> {
    or_text(json_as_str(json_get(v, "type"@)), ""@)
}

/// Scanning one more record.  A line that is no JSON, and an assistant
/// record without a usable turn, count as failed.
pub open spec fn scan_step(st: ScanState, rec: Option<JsonValue>) -> ScanState {
    match rec {
        None => (st.0, st.1, st.2 + 1),
        Some(v) => if record_type(v) == "assistant"@ {
            match spec_assistant(v) {
                Some(t) => (dedup_insert(st.0, t), st.1, st.2),
                None => (st.0, st.1, st.2 + 1),
            }
        } else if record_type(v) == "system"@ {
            match json_as_u64(json_get(v, "turn_duration_ms"@)) {
                Some(d) => (st.0, st.1.push(d), st.2),
                None => st,
            }
        } else {
            st
        },
    }
}

/// Scanning all records, in order.
pub open spec fn scan(records: Seq<Option<JsonValue>>) -> ScanState
    decreases records.len(),
{
    if records.len() == 0 {
        (Seq::empty(), Seq::empty(), 0)
    } else {
        scan_step(scan(records.drop_last()), records.last())
    }
}

pub(crate) proof fn lemma_find_id_bounds(list: Seq<TurnView>, id: Seq<char>)
    ensures
        -1 <= find_id(list, id) < list.len(),
        find_id(list, id) >= 0 ==> list[find_id(list, id)].0 == id,
    decreases list.len(),
{
    if list.len() > 0 {
        lemma_find_id_bounds(list.drop_last(), id);
    }
}

proof fn lemma_find_id_prefix(list: Seq<TurnView>, id: Seq<char>, n: int)
    requires
        0 <= n <= list.len(),
        find_id(list.take(n), id) >= 0,
    ensures
        find_id(list, id) == find_id(list.take(n), id),
    decreases list.len() - n,
{
    if n < list.len() {
        assert(list.take(n + 1).drop_last() =~= list.take(n));
        lemma_find_id_prefix(list, id, n + 1);
    } else {
        assert(list.take(n) =~= list);
    }
}

proof fn lemma_find_id_absent(list: Seq<TurnView>, id: Seq<char>)
    requires
        forall|k: int| 0 <= k < list.len() ==> (#[trigger] list[k]).0 != id,
    ensures
        find_id(list, id) == -1,
    decreases list.len(),
{
    if list.len() > 0 {
        lemma_find_id_absent(list.drop_last(), id);
    }
}

pub open spec fn turn_views(v: Seq<AssistantTurn>) -> Seq<TurnView> {
    views(v)
}

fn find_request(list: &Vec<AssistantTurn>, id: &String) -> (r: Option<usize>)
    ensures
        match r {
            Some(j) => j as int == find_id(turn_views(list@), id@),
            None => find_id(turn_views(list@), id@) == -1,
        },
{
    let ghost views = turn_views(list@);
    let mut j: usize = 0;
    while j < list.len()
        invariant
            j <= list.len(),
            views == turn_views(list@),
            forall|k: int| 0 <= k < j ==> (#[trigger] views[k]).0 != id@,
        decreases list.len() - j,
    {
        if list[j].request_id == *id {
            proof {
                assert(views.take(j as int) =~= views.take(j + 1).drop_last());
                lemma_find_id_absent(views.take(j as int), id@);
                lemma_find_id_prefix(views, id@, j + 1);
            }
            return Some(j);
        }
        j = j + 1;
    }
    proof {
        lemma_find_id_absent(views, id@);
    }
    None
}

fn insert_turn(list: &mut Vec<AssistantTurn>, turn: AssistantTurn)
    ensures
        turn_views(final(list)@) == dedup_insert(turn_views(old(list)@), turn@),
{
    let ghost views = turn_views(list@);
    match find_request(list, &turn.request_id) {
        Some(j) => {
            proof {
                lemma_find_id_bounds(views, turn@.0);
            }
            if turn.stop_reason.is_some() {
                list.set(j, turn);
                assert(turn_views(list@) =~= views.update(j as int, turn@));
            }
        },
        None => {
            list.push(turn);
            assert(turn_views(list@) =~= views.push(turn@));
        },
    }
}

/// Scan the records: deduplicated turns, turn durations, failed records.
fn scan_records(records: &Vec<Option<JsonValue>>) -> (r: (Vec<AssistantTurn>, Vec<u64>, u64))
    ensures
        (turn_views(r.0@), r.1@, r.2 as nat) == scan(records@),
{
    let mut list: Vec<AssistantTurn> = Vec::new();
    let mut durations: Vec<u64> = Vec::new();
    let mut failed: u64 = 0;
    let assistant = key("assistant");
    let system = key("system");
    let mut i: usize = 0;
    assert(turn_views(list@) =~= Seq::<TurnView>::empty());
    while i < records.len()
        invariant
            i <= records.len(),
            assistant@ == "assistant"@,
            system@ == "system"@,
            failed <= i,
            (turn_views(list@), durations@, failed as nat) == scan(records@.take(i as int)),
        decreases records.len() - i,
    {
        assert(records@.take(i + 1).drop_last() =~= records@.take(i as int));
        assert(records@.take(i + 1).last() == records@[i as int]);
        match &records[i] {
            None => {
                failed = failed + 1;
            },
            Some(v) => {
                let ty = as_str(get(v, &key("type")));
                let is_assistant = match ty {
                    Some(t) => *t == assistant,
                    None => false,
                };
                let is_system = match ty {
                    Some(t) => *t == system,
                    None => false,
                };
                proof {
                    reveal_strlit("assistant");
                    reveal_strlit("system");
                    reveal_strlit("");
                    reveal_strlit("type");
                    match ty {
                        Some(t) => {
                            assert(json_as_str(json_get(*v, "type"@)) == Some(t@));
                            assert(record_type(*v) == t@);
                        },
                        None => {
                            assert(json_as_str(json_get(*v, "type"@)) is None);
                            assert(record_type(*v) == ""@);
                        },
                    }
                    assert(is_assistant == (record_type(*v) == "assistant"@));
                    assert(is_system == (record_type(*v) == "system"@));
                }
                if is_assistant {
                    match parse_assistant_record(v) {
                        Some(t) => {
                            insert_turn(&mut list, t);
                        },
                        None => {
                            failed = failed + 1;
                        },
                    }
                } else if is_system {
                    match as_u64(get(v, &key("turn_duration_ms"))) {
                        Some(d) => {
                            durations.push(d);
                        },
                        None => {},
                    }
                }
            },
        }
        i = i + 1;
    }
    assert(records@.take(records.len() as int) =~= records@);
    (list, durations, failed)
}


// ============================================================
// Totals
// ============================================================
/// One of the four token counts of a usage: input, output, cache creation,
/// cache read (for `k` = 0, 1, 2, 3).
pub open spec fn usage_field(u: TokenUsage, k: int) -> u64 {
    if k == 0 {
        u.input_tokens
    } else if k == 1 {
        u.output_tokens
    } else if k == 2 {
        u.cache_creation_input_tokens
    } else {
        u.cache_read_input_tokens
    }
}

/// Sum of token count `k` over the turns.
pub open spec fn token_sum(l: Seq<TurnView>, k: int) -> nat
    decreases l.len(),
{
    if l.len() == 0 {
        0
    } else {
        token_sum(l.drop_last(), k) + usage_field(l.last().2, k) as nat
    }
}

/// Each of the four token counts, summed over the turns on its own, fits
/// in a `u64`.
pub open spec fn fields_fit(l: Seq<TurnView>) -> bool {
    &&& token_sum(l, 0) <= u64::MAX
    &&& token_sum(l, 1) <= u64::MAX
    &&& token_sum(l, 2) <= u64::MAX
    &&& token_sum(l, 3) <= u64::MAX
}

pub(crate) proof fn lemma_token_sum_prefix(l: Seq<TurnView>, k: int, n: int)
    requires
        0 <= n <= l.len(),
    ensures
        token_sum(l.take(n), k) <= token_sum(l, k),
    decreases l.len() - n,
{
    if n < l.len() {
        assert(l.take(n + 1).drop_last() =~= l.take(n));
        lemma_token_sum_prefix(l, k, n + 1);
    } else {
        assert(l.take(n) =~= l);
    }
}

/// The four token totals of the turns, or nothing when one of them exceeds
/// the largest `u64`.
fn token_totals(list: &Vec<AssistantTurn>) -> (r: Option<(u64, u64, u64, u64)>)
    ensures
        !fields_fit(turn_views(list@)) ==> r is None,
        fields_fit(turn_views(list@)) ==> r == Some(
            (
                token_sum(turn_views(list@), 0) as u64,
                token_sum(turn_views(list@), 1) as u64,
                token_sum(turn_views(list@), 2) as u64,
                token_sum(turn_views(list@), 3) as u64,
            ),
        ),
{
    let ghost l = turn_views(list@);
    let mut a: u128 = 0;
    let mut b: u128 = 0;
    let mut c: u128 = 0;
    let mut d: u128 = 0;
    let mut i: usize = 0;
    while i < list.len()
        invariant
            i <= list.len(),
            l == turn_views(list@),
            a == token_sum(l.take(i as int), 0),
            b == token_sum(l.take(i as int), 1),
            c == token_sum(l.take(i as int), 2),
            d == token_sum(l.take(i as int), 3),
            a <= u64::MAX,
            b <= u64::MAX,
            c <= u64::MAX,
            d <= u64::MAX,
        decreases list.len() - i,
    {
        assert(l.take(i + 1).drop_last() =~= l.take(i as int));
        let u = list[i].usage;
        a = a + u.input_tokens as u128;
        b = b + u.output_tokens as u128;
        c = c + u.cache_creation_input_tokens as u128;
        d = d + u.cache_read_input_tokens as u128;
        i = i + 1;
        if a > u64::MAX as u128 || b > u64::MAX as u128 || c > u64::MAX as u128 || d
            > u64::MAX as u128 {
            proof {
                lemma_token_sum_prefix(l, 0, i as int);
                lemma_token_sum_prefix(l, 1, i as int);
                lemma_token_sum_prefix(l, 2, i as int);
                lemma_token_sum_prefix(l, 3, i as int);
            }
            return None;
        }
    }
    assert(l.take(list.len() as int) =~= l);
    Some((a as u64, b as u64, c as u64, d as u64))
}

// ============================================================
// Per-model and per-tool aggregation
// ============================================================
/// Index of the first element whose key is `x`, or -1.
pub open spec fn find_key<A>(s: Seq<A>, key: spec_fn(A) -> Seq<char>, x: Seq<char>) -> int
    decreases s.len(),
{
    if s.len() == 0 {
        -1
    } else {
        let k = find_key(s.drop_last(), key, x);
        if k >= 0 {
            k
        } else if key(s.last()) == x {
            s.len() - 1
        } else {
            -1
        }
    }
}

pub(crate) proof fn lemma_find_key_bounds<A>(s: Seq<A>, key: spec_fn(A) -> Seq<char>, x: Seq<char>)
    ensures
        -1 <= find_key(s, key, x) < s.len(),
        find_key(s, key, x) >= 0 ==> key(s[find_key(s, key, x)]) == x,
    decreases s.len(),
{
    if s.len() > 0 {
        lemma_find_key_bounds(s.drop_last(), key, x);
    }
}

proof fn lemma_find_key_prefix<A>(s: Seq<A>, key: spec_fn(A) -> Seq<char>, x: Seq<char>, n: int)
    requires
        0 <= n <= s.len(),
        find_key(s.take(n), key, x) >= 0,
    ensures
        find_key(s, key, x) == find_key(s.take(n), key, x),
    decreases s.len() - n,
{
    if n < s.len() {
        assert(s.take(n + 1).drop_last() =~= s.take(n));
        lemma_find_key_prefix(s, key, x, n + 1);
    } else {
        assert(s.take(n) =~= s);
    }
}

proof fn lemma_find_key_absent<A>(s: Seq<A>, key: spec_fn(A) -> Seq<char>, x: Seq<char>)
    requires
        forall|k: int| 0 <= k < s.len() ==> key(#[trigger] s[k]) != x,
    ensures
        find_key(s, key, x) == -1,
    decreases s.len(),
{
    if s.len() > 0 {
        lemma_find_key_absent(s.drop_last(), key, x);
    }
}

/// A per-model aggregate, as a value: model, turns, input, output, cache
/// creation and cache read tokens.
pub type ModelView = (Seq<char>, u64, u64, u64, u64, u64);

pub open spec fn model_key() -> spec_fn(ModelView) -> Seq<char> {
    |m: ModelView| m.0
}

/// Adds one turn to the per-model aggregates.
pub open spec fn add_model(acc: Seq<ModelView>, t: TurnView) -> Seq<ModelView> {
    let k = find_key(acc, model_key(), t.1);
    if k >= 0 {
        let e = acc[k];
        acc.update(
            k,
            (
                e.0,
                (e.1 + 1) as u64,
                (e.2 + t.2.input_tokens) as u64,
                (e.3 + t.2.output_tokens) as u64,
                (e.4 + t.2.cache_creation_input_tokens) as u64,
                (e.5 + t.2.cache_read_input_tokens) as u64,
            ),
        )
    } else {
        acc.push(
            (
                t.1,
                1,
                t.2.input_tokens,
                t.2.output_tokens,
                t.2.cache_creation_input_tokens,
                t.2.cache_read_input_tokens,
            ),
        )
    }
}

/// Per-model aggregates of the turns, in order of first appearance.
pub open spec fn spec_models(l: Seq<TurnView>) -> Seq<ModelView>
    decreases l.len(),
{
    if l.len() == 0 {
        seq![]
    } else {
        add_model(spec_models(l.drop_last()), l.last())
    }
}

/// Every aggregate is bounded by the totals over the turns.
pub open spec fn models_bounded(acc: Seq<ModelView>, l: Seq<TurnView>) -> bool {
    forall|j: int|
        0 <= j < acc.len() ==> {
            &&& (#[trigger] acc[j]).1 <= l.len()
            &&& acc[j].2 <= token_sum(l, 0)
            &&& acc[j].3 <= token_sum(l, 1)
            &&& acc[j].4 <= token_sum(l, 2)
            &&& acc[j].5 <= token_sum(l, 3)
        }
}

fn find_model(acc: &Vec<ModelUsage>, model: &String) -> (r: Option<usize>)
    ensures
        match r {
            Some(j) => j as int == find_key(views(acc@), model_key(), model@),
            None => find_key(views(acc@), model_key(), model@) == -1,
        },
{
    let ghost vs = views(acc@);
    let mut j: usize = 0;
    while j < acc.len()
        invariant
            j <= acc.len(),
            vs == views(acc@),
            forall|k: int| 0 <= k < j ==> (model_key())(#[trigger] vs[k]) != model@,
        decreases acc.len() - j,
    {
        if acc[j].model == *model {
            proof {
                assert(vs.take(j as int) =~= vs.take(j + 1).drop_last());
                assert forall|k: int| 0 <= k < vs.take(j as int).len() implies (model_key())(
                    #[trigger] vs.take(j as int)[k],
                ) != model@ by {
                    assert(vs.take(j as int)[k] == vs[k]);
                }
                lemma_find_key_absent(vs.take(j as int), model_key(), model@);
                lemma_find_key_prefix(vs, model_key(), model@, j + 1);
            }
            return Some(j);
        }
        j = j + 1;
    }
    proof {
        lemma_find_key_absent(vs, model_key(), model@);
    }
    None
}

/// Aggregate token usage per model, in order of first appearance.
fn aggregate_models(list: &Vec<AssistantTurn>) -> (r: Vec<ModelUsage>)
    requires
        fields_fit(turn_views(list@)),
    ensures
        views(r@) == spec_models(turn_views(list@)),
{
    let ghost l = turn_views(list@);
    let mut acc: Vec<ModelUsage> = Vec::new();
    let mut i: usize = 0;
    assert(views(acc@) =~= spec_models(l.take(0)));
    while i < list.len()
        invariant
            i <= list.len(),
            l == turn_views(list@),
            fields_fit(l),
            views(acc@) == spec_models(l.take(i as int)),
            models_bounded(views(acc@), l.take(i as int)),
        decreases list.len() - i,
    {
        let ghost pre = l.take(i as int);
        let ghost next = l.take(i + 1);
        assert(next.drop_last() =~= pre);
        assert(next.last() == l[i as int]);
        proof {
            lemma_token_sum_prefix(l, 0, i + 1);
            lemma_token_sum_prefix(l, 1, i + 1);
            lemma_token_sum_prefix(l, 2, i + 1);
            lemma_token_sum_prefix(l, 3, i + 1);
        }
        let t = &list[i];
        let ghost before = views(acc@);
        match find_model(&acc, &t.model) {
            Some(j) => {
                proof {
                    lemma_find_key_bounds(before, model_key(), t.model@);
                }
                let e = &acc[j];
                let updated = ModelUsage {
                    model: e.model.clone(),
                    turn_count: e.turn_count + 1,
                    total_input: e.total_input + t.usage.input_tokens,
                    total_output: e.total_output + t.usage.output_tokens,
                    total_cache_creation: e.total_cache_creation + t.usage.cache_creation_input_tokens,
                    total_cache_read: e.total_cache_read + t.usage.cache_read_input_tokens,
                };
                acc.set(j, updated);
                assert(views(acc@) =~= add_model(before, l[i as int]));
            },
            None => {
                let fresh = ModelUsage {
                    model: t.model.clone(),
                    turn_count: 1,
                    total_input: t.usage.input_tokens,
                    total_output: t.usage.output_tokens,
                    total_cache_creation: t.usage.cache_creation_input_tokens,
                    total_cache_read: t.usage.cache_read_input_tokens,
                };
                acc.push(fresh);
                assert(views(acc@) =~= add_model(before, l[i as int]));
            },
        }
        i = i + 1;
        proof {
            assert forall|j: int| 0 <= j < views(acc@).len() implies {
                &&& (#[trigger] views(acc@)[j]).1 <= next.len()
                &&& views(acc@)[j].2 <= token_sum(next, 0)
                &&& views(acc@)[j].3 <= token_sum(next, 1)
                &&& views(acc@)[j].4 <= token_sum(next, 2)
                &&& views(acc@)[j].5 <= token_sum(next, 3)
            } by {
                if j < before.len() {
                    assert(before[j].1 <= pre.len());
                }
            }
        }
    }
    assert(l.take(list.len() as int) =~= l);
    acc
}


/// A per-tool count, as a value.
pub type ToolStatView = (Seq<char>, u64);

pub open spec fn tool_key() -> spec_fn(ToolStatView) -> Seq<char> {
    |t: ToolStatView| t.0
}

/// Counts one more invocation of tool `name` (counts stop at the largest `u64`).
pub open spec fn add_tool(acc: Seq<ToolStatView>, name: Seq<char>) -> Seq<ToolStatView> {
    let k = find_key(acc, tool_key(), name);
    if k >= 0 {
        let n = acc[k].1;
        acc.update(
            k,
            (
                acc[k].0,
                if n < u64::MAX {
                    (n + 1) as u64
                } else {
                    n
                },
            ),
        )
    } else {
        acc.push((name, 1))
    }
}

/// Counts the invocations of one turn.
pub open spec fn add_tools(acc: Seq<ToolStatView>, tools: Seq<(Seq<char>, Seq<char>, Option<Seq<char>>)>) -> Seq<ToolStatView>
    decreases tools.len(),
{
    if tools.len() == 0 {
        acc
    } else {
        add_tool(add_tools(acc, tools.drop_last()), tools.last().0)
    }
}

/// Invocation counts per tool over the turns, in order of first invocation.
pub open spec fn spec_tool_stats(l: Seq<TurnView>) -> Seq<ToolStatView>
    decreases l.len(),
{
    if l.len() == 0 {
        seq![]
    } else {
        add_tools(spec_tool_stats(l.drop_last()), l.last().3)
    }
}

fn find_tool(acc: &Vec<ToolUsageStat>, name: &String) -> (r: Option<usize>)
    ensures
        match r {
            Some(j) => j as int == find_key(views(acc@), tool_key(), name@),
            None => find_key(views(acc@), tool_key(), name@) == -1,
        },
{
    let ghost vs = views(acc@);
    let mut j: usize = 0;
    while j < acc.len()
        invariant
            j <= acc.len(),
            vs == views(acc@),
            forall|k: int| 0 <= k < j ==> (tool_key())(#[trigger] vs[k]) != name@,
        decreases acc.len() - j,
    {
        if acc[j].name == *name {
            proof {
                assert(vs.take(j as int) =~= vs.take(j + 1).drop_last());
                assert forall|k: int| 0 <= k < vs.take(j as int).len() implies (tool_key())(
                    #[trigger] vs.take(j as int)[k],
                ) != name@ by {
                    assert(vs.take(j as int)[k] == vs[k]);
                }
                lemma_find_key_absent(vs.take(j as int), tool_key(), name@);
                lemma_find_key_prefix(vs, tool_key(), name@, j + 1);
            }
            return Some(j);
        }
        j = j + 1;
    }
    proof {
        lemma_find_key_absent(vs, tool_key(), name@);
    }
    None
}

/// Count tool invocations per tool, in order of first invocation.
fn aggregate_tools(list: &Vec<AssistantTurn>) -> (r: Vec<ToolUsageStat>)
    ensures
        views(r@) == spec_tool_stats(turn_views(list@)),
{
    let ghost l = turn_views(list@);
    let mut acc: Vec<ToolUsageStat> = Vec::new();
    let mut i: usize = 0;
    assert(views(acc@) =~= spec_tool_stats(l.take(0)));
    while i < list.len()
        invariant
            i <= list.len(),
            l == turn_views(list@),
            views(acc@) == spec_tool_stats(l.take(i as int)),
        decreases list.len() - i,
    {
        assert(l.take(i + 1).drop_last() =~= l.take(i as int));
        let tools = &list[i].tools;
        let ghost tv = l[i as int].3;
        assert(tv == tools@.map_values(|t: ToolUseInfo| t@));
        let ghost start = views(acc@);
        let mut j: usize = 0;
        while j < tools.len()
            invariant
                j <= tools.len(),
                i < list.len(),
                tools == &list@[i as int].tools,
                tv == tools@.map_values(|t: ToolUseInfo| t@),
                views(acc@) == add_tools(start, tv.take(j as int)),
            decreases tools.len() - j,
        {
            assert(tv.take(j + 1).drop_last() =~= tv.take(j as int));
            let name = &tools[j].name;
            let ghost before = views(acc@);
            match find_tool(&acc, name) {
                Some(k) => {
                    proof {
                        lemma_find_key_bounds(before, tool_key(), name@);
                    }
                    let n = acc[k].invocation_count;
                    let updated = ToolUsageStat {
                        name: acc[k].name.clone(),
                        invocation_count: if n < u64::MAX {
                            n + 1
                        } else {
                            n
                        },
                    };
                    acc.set(k, updated);
                    assert(views(acc@) =~= add_tool(before, name@));
                },
                None => {
                    acc.push(ToolUsageStat { name: name.clone(), invocation_count: 1 });
                    assert(views(acc@) =~= add_tool(before, name@));
                },
            }
            j = j + 1;
        }
        assert(tv.take(tools.len() as int) =~= tv);
        i = i + 1;
    }
    assert(l.take(list.len() as int) =~= l);
    acc
}

// ============================================================
// Compression events
// ============================================================
/// The cache-read count of turn `i` dropped by more than 80% from turn
/// `i - 1` of the same model.
pub open spec fn compression_at(s: Seq<TurnView>, i: int) -> bool {
    let before = s[i - 1].2.cache_read_input_tokens;
    let after = s[i].2.cache_read_input_tokens;
    &&& s[i - 1].1 == s[i].1
    &&& before > 0
    &&& after < before
    &&& 5 * (before - after) > 4 * before
}

/// The compression events among turns `1 .. n`, in order.
pub open spec fn compressions_upto(s: Seq<TurnView>, n: int) -> Seq<CompressionEvent>
    decreases n,
{
    if n <= 1 {
        seq![]
    } else {
        compressions_upto(s, n - 1) + if compression_at(s, n - 1) {
            seq![
                CompressionEvent {
                    turn_index: (n - 1) as usize,
                    timestamp: s[n - 1].5,
                    cache_read_before: s[n - 2].2.cache_read_input_tokens,
                    cache_read_after: s[n - 1].2.cache_read_input_tokens,
                },
            ]
        } else {
            Seq::<CompressionEvent>::empty()
        }
    }
}

/// The compression events of a sequence of turns.
pub open spec fn spec_compressions(s: Seq<TurnView>) -> Seq<CompressionEvent> {
    compressions_upto(s, s.len() as int)
}

/// Detect context compressions: a drop of more than 80% in cache reads
/// between consecutive turns of the same model.
fn detect_compression_events(turns: &Vec<AssistantTurn>) -> (r: Vec<CompressionEvent>)
    ensures
        r@ == spec_compressions(turn_views(turns@)),
{
    let ghost s = turn_views(turns@);
    let mut events: Vec<CompressionEvent> = Vec::new();
    if turns.len() == 0 {
        assert(events@ =~= spec_compressions(s));
        return events;
    }
    let mut i: usize = 1;
    assert(events@ =~= compressions_upto(s, 1));
    while i < turns.len()
        invariant
            1 <= i <= turns.len(),
            s == turn_views(turns@),
            events@ == compressions_upto(s, i as int),
        decreases turns.len() - i,
    {
        let prev = &turns[i - 1];
        let cur = &turns[i];
        let before = prev.usage.cache_read_input_tokens;
        let after = cur.usage.cache_read_input_tokens;
        let ghost old_events = events@;
        if prev.model == cur.model && before > 0 && after < before && 5 * ((before - after) as u128)
            > 4 * (before as u128) {
            events.push(
                CompressionEvent {
                    turn_index: i,
                    timestamp: cur.timestamp,
                    cache_read_before: before,
                    cache_read_after: after,
                },
            );
        }
        assert(events@ =~= compressions_upto(s, i + 1));
        i = i + 1;
    }
    events
}


// ============================================================
// Session parse
// ============================================================
/// Why a session log could not be parsed.
#[derive(Debug, Clone, Copy, PartialEq, Eq, Structural)]
pub enum ParseError {
    /// More than 5% of the records, and at least three, failed.
    TooManyFailedLines { failed: u64, total: u64 },
    /// One of the session's token counts, summed over its turns, exceeds
    /// what a `u64` holds.
    TokenCountOverflow,
}

/// The failure threshold: more than 5% of the records failed, and at
/// least three did.
pub open spec fn too_many_failed(failed: nat, total: nat) -> bool {
    total > 0 && failed * 20 > total && failed >= 3
}

impl ParseError {
    /// The text that [`ParseError::message`] returns.
    pub open spec fn spec_message(self) -> Seq<char> {
        match self {
            ParseError::TooManyFailedLines { failed, total } => {
                let t = percent_tenths(failed as nat, total as nat);
                "Too many failed lines: "@ + crate::text::spec_decimal(failed as nat) + "/"@
                    + crate::text::spec_decimal(total as nat) + " ("@ + crate::text::spec_decimal(t / 10)
                    + "."@ + crate::text::spec_decimal(t % 10) + "% > 5% threshold)"@
            },
            ParseError::TokenCountOverflow => "Token counts exceed the largest 64-bit count"@,
        }
    }

    /// The counts of a failure are possible ones: some records, and no more
    /// failed than there are.
    pub open spec fn is_consistent(self) -> bool {
        self matches ParseError::TooManyFailedLines { failed, total } ==> 1 <= total && failed
            <= total
    }

    /// Human-readable description of the error.  The failed share is
    /// printed as `failed as f64 / total as f64 * 100.0` with one decimal.
    pub fn message(&self) -> (r: String)
        requires
            self.is_consistent(),
        ensures
            r@ == self.spec_message(),
    {
        match self {
            ParseError::TooManyFailedLines { failed, total } => {
                let tenths = percent_tenths_exec(*failed, *total);
                let whole = tenths / 10;
                let frac = tenths % 10;
                let mut s = String::from_str("Too many failed lines: ");
                s.append(crate::text::decimal_string(*failed).as_str());
                s.append("/");
                s.append(crate::text::decimal_string(*total).as_str());
                s.append(" (");
                s.append(crate::text::decimal_string_wide(whole).as_str());
                s.append(".");
                s.append(crate::text::decimal_string_wide(frac).as_str());
                s.append("% > 5% threshold)");
                s
            },
            ParseError::TokenCountOverflow => String::from_str(
                "Token counts exceed the largest 64-bit count",
            ),
        }
    }
}

proof fn lemma_scan_failed_bound(records: Seq<Option<JsonValue>>)
    ensures
        scan(records).2 <= records.len(),
    decreases records.len(),
{
    if records.len() > 0 {
        lemma_scan_failed_bound(records.drop_last());
    }
}

/// `p` is the parse result of the records of the log at `path`.
pub open spec fn parsed_from(p: ParseResult, path: Seq<char>, records: Seq<Option<JsonValue>>) -> bool {
    let st = scan(records);
    let turns = p.assistant_turns@;
    &&& (p.session_id@, p.project_path@, p.is_subagent, opt_view(p.agent_id))
        == spec_path_metadata(path)
    &&& p.total_lines == records.len()
    &&& p.failed_lines == st.2
    &&& p.turn_durations_ms@ == st.1
    &&& views(turns).to_multiset() == st.0.to_multiset()
    &&& ordered_by_key(turns, false)
    &&& p.total_turns == st.0.len()
    &&& p.total_input_tokens == token_sum(st.0, 0)
    &&& p.total_output_tokens == token_sum(st.0, 1)
    &&& p.total_cache_creation_tokens == token_sum(st.0, 2)
    &&& p.total_cache_read_tokens == token_sum(st.0, 3)
    &&& views(p.model_usage@).to_multiset() == spec_models(st.0).to_multiset()
    &&& ordered_by_key(p.model_usage@, true)
    &&& views(p.tool_usage@).to_multiset() == spec_tool_stats(st.0).to_multiset()
    &&& ordered_by_key(p.tool_usage@, true)
    &&& p.compression_events@ == spec_compressions(views(turns))
    &&& p.first_timestamp == if turns.len() == 0 {
        None
    } else {
        Some(turns[0].timestamp)
    }
    &&& p.last_timestamp == if turns.len() == 0 {
        None
    } else {
        Some(turns[turns.len() - 1].timestamp)
    }
}

/// Parse the records of a session log (one per record line, nothing for a
/// line that is no JSON) into a [`ParseResult`].
///
/// Fails when more than 5% of the records, and at least three, failed, or
/// when one of the four token counts, summed over the turns, exceeds what a
/// `u64` holds.
pub fn parse_session(path: &str, records: &Vec<Option<JsonValue>>) -> (r: Result<
    ParseResult,
    ParseError,
>)
    ensures
        too_many_failed(scan(records@).2, records@.len()) ==> r == Err::<ParseResult, ParseError>(
            ParseError::TooManyFailedLines {
                failed: scan(records@).2 as u64,
                total: records@.len() as u64,
            },
        ),
        !too_many_failed(scan(records@).2, records@.len()) && !fields_fit(scan(records@).0)
            ==> r == Err::<ParseResult, ParseError>(ParseError::TokenCountOverflow),
        !too_many_failed(scan(records@).2, records@.len()) && fields_fit(scan(records@).0) ==> (r
            matches Ok(p) && parsed_from(p, path@, records@)),
        r matches Err(e) ==> e.is_consistent(),
{
    proof {
        lemma_scan_failed_bound(records@);
    }
    let meta = extract_path_metadata(path);
    let (list, durations, failed) = scan_records(records);
    let total_lines = records.len() as u64;
    if total_lines > 0 && (failed as u128) * 20 > (total_lines as u128) && failed >= 3 {
        return Err(ParseError::TooManyFailedLines { failed, total: total_lines });
    }
    let totals = match token_totals(&list) {
        Some(t) => t,
        None => {
            return Err(ParseError::TokenCountOverflow);
        },
    };
    let model_usage = sort_by_key(aggregate_models(&list), true);
    let tool_usage = sort_by_key(aggregate_tools(&list), true);
    let total_turns = list.len() as u64;
    let turns = sort_by_key(list, false);
    let compression_events = detect_compression_events(&turns);
    let first_timestamp = if turns.len() == 0 {
        None
    } else {
        Some(turns[0].timestamp)
    };
    let last_timestamp = if turns.len() == 0 {
        None
    } else {
        Some(turns[turns.len() - 1].timestamp)
    };
    let (session_id, project_path, is_subagent, agent_id) = meta;
    Ok(ParseResult {
        session_id,
        project_path,
        is_subagent,
        agent_id,
        first_timestamp,
        last_timestamp,
        assistant_turns: turns,
        model_usage,
        tool_usage,
        compression_events,
        total_turns,
        total_input_tokens: totals.0,
        total_output_tokens: totals.1,
        total_cache_creation_tokens: totals.2,
        total_cache_read_tokens: totals.3,
        failed_lines: failed,
        total_lines,
        turn_durations_ms: durations,
    })
}

/// `r` is what parsing the records `records` of the log at `path` gives,
/// as [`parse_session`] states it.
pub open spec fn parse_outcome(
    path: Seq<char>,
    records: Seq<Option<JsonValue>>,
    r: Result<ParseResult, ParseError>,
) -> bool {
    let st = scan(records);
    &&& too_many_failed(st.2, records.len()) ==> r == Err::<ParseResult, ParseError>(
        ParseError::TooManyFailedLines { failed: st.2 as u64, total: records.len() as u64 },
    )
    &&& !too_many_failed(st.2, records.len()) && !fields_fit(st.0) ==> r == Err::<
        ParseResult,
        ParseError,
    >(ParseError::TokenCountOverflow)
    &&& !too_many_failed(st.2, records.len()) && fields_fit(st.0) ==> (r matches Ok(p)
        && parsed_from(p, path, records))
    &&& r matches Err(e) ==> e.is_consistent()
}

/// Parse the text `content` of the log at `path`: its record lines are read
/// as JSON and parsed as [`parse_session`] does.
pub fn parse_session_text(path: &str, content: &str) -> (r: Result<ParseResult, ParseError>)
    ensures
        parse_outcome(path@, spec_records(content@), r),
{
    let records = parse_records(content);
    parse_session(path, &records)
}

/// Parsing refuses a log for its failed lines only when more than 5% of its
/// lines, and at least three, failed: the error then reports the failed
/// and total line counts, and a log with at most 5% failed lines, or fewer
/// than three, is never refused for them.
pub proof fn lemma_failure_threshold(
    path: Seq<char>,
    records: Seq<Option<JsonValue>>,
    r: Result<ParseResult, ParseError>,
)
    requires
        records.len() <= usize::MAX,
        parse_outcome(path, records, r),
    ensures
        r matches Err(ParseError::TooManyFailedLines { failed, total }) ==> failed * 20 > total
            && failed >= 3 && failed == scan(records).2 && total == records.len(),
        scan(records).2 * 20 <= records.len() || scan(records).2 < 3 ==> !(r matches Err(
            ParseError::TooManyFailedLines { .. },
        )),
        r matches Ok(p) ==> p.failed_lines * 20 <= p.total_lines || p.failed_lines < 3,
{
    lemma_scan_failed_bound(records);
}

} // verus!
