//! Extraction of classifier signals from a parsed session.
use vstd::prelude::*;

use crate::pattern_classifier::Signals;
use crate::ratio::Ratio;
use crate::types::{AssistantTurn, ParseResult, Timestamp, ToolUseInfo};
use vstd::string::StringExecFns;

verus! {

/// Tools that only read or search.
pub open spec fn is_search_tool(name: Seq<char>) -> bool {
    name == "Read"@ || name == "Grep"@ || name == "Glob"@
}

/// Tools that modify files.
pub open spec fn is_edit_tool(name: Seq<char>) -> bool {
    name == "Edit"@ || name == "Write"@ || name == "MultiEdit"@
}

/// The tool that starts a sub-agent.
pub open spec fn subagent_tool() -> Seq<char> {
    "Agent"@
}

/// `n` clipped to the largest `u64`.
pub open spec fn saturate(n: nat) -> u64 {
    if n > u64::MAX {
        u64::MAX
    } else {
        n as u64
    }
}

/// Number of tools named `target` in one turn's tool list.
pub open spec fn named_in(tools: Seq<ToolUseInfo>, target: Seq<char>) -> nat
    decreases tools.len(),
{
    if tools.len() == 0 {
        0
    } else {
        named_in(tools.drop_last(), target) + if tools.last().name@ == target {
            1nat
        } else {
            0nat
        }
    }
}

/// Number of tool invocations named `target` over all turns.
pub open spec fn named_count(turns: Seq<AssistantTurn>, target: Seq<char>) -> nat
    decreases turns.len(),
{
    if turns.len() == 0 {
        0
    } else {
        named_count(turns.drop_last(), target) + named_in(turns.last().tools@, target)
    }
}

/// File paths of the edit invocations (with a path) of one turn, in order.
pub open spec fn edit_keys_in(tools: Seq<ToolUseInfo>) -> Seq<Seq<char>>
    decreases tools.len(),
{
    if tools.len() == 0 {
        seq![]
    } else {
        let t = tools.last();
        edit_keys_in(tools.drop_last()) + if is_edit_tool(t.name@) && t.file_path is Some {
            seq![t.file_path.unwrap()@]
        } else {
            Seq::<Seq<char>>::empty()
        }
    }
}

/// File paths of all edit invocations (with a path), in order.
pub open spec fn edit_keys(turns: Seq<AssistantTurn>) -> Seq<Seq<char>>
    decreases turns.len(),
{
    if turns.len() == 0 {
        seq![]
    } else {
        edit_keys(turns.drop_last()) + edit_keys_in(turns.last().tools@)
    }
}

/// Number of occurrences of `x` in `s`.
pub open spec fn occurrences(s: Seq<Seq<char>>, x: Seq<char>) -> nat
    decreases s.len(),
{
    if s.len() == 0 {
        0
    } else {
        occurrences(s.drop_last(), x) + if s.last() == x {
            1nat
        } else {
            0nat
        }
    }
}

/// Largest number of occurrences of any of the first `n` elements of `s`.
pub open spec fn peak_upto(s: Seq<Seq<char>>, n: int) -> nat
    decreases n,
{
    if n <= 0 {
        0
    } else {
        let prev = peak_upto(s, n - 1);
        let here = occurrences(s, s[n - 1]);
        if here > prev {
            here
        } else {
            prev
        }
    }
}

/// Largest number of edits of one and the same file.
pub open spec fn spec_edit_peak(turns: Seq<AssistantTurn>) -> nat {
    peak_upto(edit_keys(turns), edit_keys(turns).len() as int)
}

/// The turn invoked at least one tool, and only reading or searching ones.
pub open spec fn search_only(t: AssistantTurn) -> bool {
    t.tools@.len() > 0 && forall|j: int|
        0 <= j < t.tools@.len() ==> is_search_tool(#[trigger] t.tools@[j].name@)
}

/// The turn invoked an editing tool.
pub open spec fn has_edit(t: AssistantTurn) -> bool {
    exists|j: int| 0 <= j < t.tools@.len() && is_edit_tool(#[trigger] t.tools@[j].name@)
}

/// Two search-only turns followed by an editing turn start at index `i`.
pub open spec fn shift_at(turns: Seq<AssistantTurn>, i: int) -> bool {
    search_only(turns[i]) && search_only(turns[i + 1]) && has_edit(turns[i + 2])
}

/// Number of topic shifts starting before index `n`.
pub open spec fn shifts_upto(turns: Seq<AssistantTurn>, n: int) -> nat
    decreases n,
{
    if n <= 0 {
        0
    } else {
        shifts_upto(turns, n - 1) + if shift_at(turns, n - 1) {
            1nat
        } else {
            0nat
        }
    }
}

/// Number of topic shifts: windows of three consecutive turns whose first
/// two only read or search and whose third edits.
pub open spec fn spec_topic_shifts(turns: Seq<AssistantTurn>) -> nat {
    if turns.len() < 3 {
        0
    } else {
        shifts_upto(turns, turns.len() - 2)
    }
}

/// Whole minutes from `first` to `last`, zero when `last` is earlier.
pub open spec fn spec_duration_minutes(first: Option<Timestamp>, last: Option<Timestamp>) -> Option<
    u32,
> {
    match (first, last) {
        (Some(f), Some(l)) => {
            let d = l.spec_nanos() - f.spec_nanos();
            if d >= 0 {
                Some((d / 60_000_000_000) as u32)
            } else {
                Some(0u32)
            }
        },
        _ => None,
    }
}

/// The two sums that the rates of the signals divide by fit in a `u64`:
/// input, cache reads and cache writes; input and output.
pub open spec fn signal_sums_fit(p: ParseResult) -> bool {
    &&& p.total_input_tokens + p.total_cache_read_tokens + p.total_cache_creation_tokens
        <= u64::MAX
    &&& p.total_input_tokens + p.total_output_tokens <= u64::MAX
}

/// The signals that [`build_signals`] extracts from a parse result.
pub open spec fn spec_signals(p: ParseResult) -> Signals {
    Signals {
        cache_hit_rate: Ratio {
            num: p.total_cache_read_tokens,
            den: (p.total_input_tokens + p.total_cache_read_tokens
                + p.total_cache_creation_tokens) as u64,
        },
        output_token_ratio: Ratio {
            num: p.total_output_tokens,
            den: (p.total_input_tokens + p.total_output_tokens) as u64,
        },
        subagent_count: saturate(named_count(p.assistant_turns@, subagent_tool())) as u32,
        repeated_edit_peak: saturate(spec_edit_peak(p.assistant_turns@)) as u32,
        turn_count: p.total_turns as u32,
        duration_minutes: spec_duration_minutes(p.first_timestamp, p.last_timestamp),
        topic_shift_count: saturate(spec_topic_shifts(p.assistant_turns@)) as u32,
    }
}

/// Extract the classifier signals of a parsed session.
///
/// The cache hit rate is cache reads over input, cache reads and cache
/// creation; the output ratio is output over input and output; each is zero
/// when its denominator is.
pub fn build_signals(parse_result: &ParseResult) -> (s: Signals)
    requires
        signal_sums_fit(*parse_result),
    ensures
        s == spec_signals(*parse_result),
{
    let turns = &parse_result.assistant_turns;
    let agent = String::from_str("Agent");
    Signals {
        cache_hit_rate: Ratio::new(
            parse_result.total_cache_read_tokens,
            parse_result.total_input_tokens + parse_result.total_cache_read_tokens
                + parse_result.total_cache_creation_tokens,
        ),
        output_token_ratio: Ratio::new(
            parse_result.total_output_tokens,
            parse_result.total_input_tokens + parse_result.total_output_tokens,
        ),
        subagent_count: count_tool_invocations(turns, &agent) as u32,
        repeated_edit_peak: repeated_edit_peak(turns) as u32,
        turn_count: parse_result.total_turns as u32,
        duration_minutes: duration_minutes(parse_result.first_timestamp, parse_result.last_timestamp),
        topic_shift_count: topic_shift_count(turns) as u32,
    }
}

fn count_in_tools(tools: &Vec<ToolUseInfo>, target: &String) -> (r: u64)
    ensures
        r == saturate(named_in(tools@, target@)),
{
    let mut count: u64 = 0;
    let mut j: usize = 0;
    while j < tools.len()
        invariant
            j <= tools.len(),
            count == saturate(named_in(tools@.take(j as int), target@)),
        decreases tools.len() - j,
    {
        assert(tools@.take(j + 1).drop_last() =~= tools@.take(j as int));
        if tools[j].name == *target && count < u64::MAX {
            count = count + 1;
        }
        j = j + 1;
    }
    assert(tools@.take(tools.len() as int) =~= tools@);
    count
}

fn count_tool_invocations(turns: &Vec<AssistantTurn>, target: &String) -> (r: u64)
    ensures
        r == saturate(named_count(turns@, target@)),
{
    let mut count: u64 = 0;
    let mut i: usize = 0;
    while i < turns.len()
        invariant
            i <= turns.len(),
            count == saturate(named_count(turns@.take(i as int), target@)),
        decreases turns.len() - i,
    {
        assert(turns@.take(i + 1).drop_last() =~= turns@.take(i as int));
        let c = count_in_tools(&turns[i].tools, target);
        count = if c > u64::MAX - count {
            u64::MAX
        } else {
            count + c
        };
        i = i + 1;
    }
    assert(turns@.take(turns.len() as int) =~= turns@);
    count
}

fn is_edit_name(name: &String, edit: &String, write: &String, multi: &String) -> (r: bool)
    requires
        edit@ == "Edit"@,
        write@ == "Write"@,
        multi@ == "MultiEdit"@,
    ensures
        r == is_edit_tool(name@),
{
    *name == *edit || *name == *write || *name == *multi
}

fn is_search_name(name: &String, read: &String, grep: &String, glob: &String) -> (r: bool)
    requires
        read@ == "Read"@,
        grep@ == "Grep"@,
        glob@ == "Glob"@,
    ensures
        r == is_search_tool(name@),
{
    *name == *read || *name == *grep || *name == *glob
}

/// File paths of every edit invocation that names a path, in order.
fn collect_edit_keys(turns: &Vec<AssistantTurn>) -> (keys: Vec<String>)
    ensures
        keys@.map_values(|k: String| k@) == edit_keys(turns@),
{
    let edit = String::from_str("Edit");
    let write = String::from_str("Write");
    let multi = String::from_str("MultiEdit");
    let mut keys: Vec<String> = Vec::new();
    let mut i: usize = 0;
    while i < turns.len()
        invariant
            i <= turns.len(),
            edit@ == "Edit"@,
            write@ == "Write"@,
            multi@ == "MultiEdit"@,
            keys@.map_values(|k: String| k@) == edit_keys(turns@.take(i as int)),
        decreases turns.len() - i,
    {
        assert(turns@.take(i + 1).drop_last() =~= turns@.take(i as int));
        let tools = &turns[i].tools;
        let ghost before = keys@.map_values(|k: String| k@);
        let mut j: usize = 0;
        while j < tools.len()
            invariant
                j <= tools.len(),
                i < turns.len(),
                edit@ == "Edit"@,
                write@ == "Write"@,
                multi@ == "MultiEdit"@,
                tools == &turns@[i as int].tools,
                keys@.map_values(|k: String| k@) == before + edit_keys_in(tools@.take(j as int)),
            decreases tools.len() - j,
        {
            assert(tools@.take(j + 1).drop_last() =~= tools@.take(j as int));
            assert(tools@.take(j + 1).last() == tools@[j as int]);
            let t = &tools[j];
            let ghost prev = keys@;
            if is_edit_name(&t.name, &edit, &write, &multi) {
                match &t.file_path {
                    Some(p) => {
                        let c = p.clone();
                        keys.push(c);
                        assert(keys@.map_values(|k: String| k@) =~= prev.map_values(
                            |k: String| k@,
                        ).push(p@));
                    },
                    None => {},
                }
            }
            assert(keys@.map_values(|k: String| k@) =~= before + edit_keys_in(
                tools@.take(j + 1),
            ));
            j = j + 1;
        }
        assert(tools@.take(tools.len() as int) =~= tools@);
        i = i + 1;
    }
    assert(turns@.take(turns.len() as int) =~= turns@);
    keys
}

fn occurrences_of(keys: &Vec<String>, x: &String, Ghost(ks): Ghost<Seq<Seq<char>>>) -> (r: u64)
    requires
        ks == keys@.map_values(|k: String| k@),
    ensures
        r == saturate(occurrences(ks, x@)),
{
    let mut count: u64 = 0;
    let mut j: usize = 0;
    while j < keys.len()
        invariant
            j <= keys.len(),
            ks == keys@.map_values(|k: String| k@),
            count == saturate(occurrences(ks.take(j as int), x@)),
        decreases keys.len() - j,
    {
        assert(ks.take(j + 1).drop_last() =~= ks.take(j as int));
        if keys[j] == *x && count < u64::MAX {
            count = count + 1;
        }
        j = j + 1;
    }
    assert(ks.take(keys.len() as int) =~= ks);
    count
}

fn repeated_edit_peak(turns: &Vec<AssistantTurn>) -> (r: u64)
    ensures
        r == saturate(spec_edit_peak(turns@)),
{
    let keys = collect_edit_keys(turns);
    let ghost ks = keys@.map_values(|k: String| k@);
    let mut peak: u64 = 0;
    let mut i: usize = 0;
    while i < keys.len()
        invariant
            i <= keys.len(),
            ks == keys@.map_values(|k: String| k@),
            ks == edit_keys(turns@),
            peak == saturate(peak_upto(ks, i as int)),
        decreases keys.len() - i,
    {
        let c = occurrences_of(&keys, &keys[i], Ghost(ks));
        if c > peak {
            peak = c;
        }
        i = i + 1;
    }
    peak
}

fn duration_minutes(first: Option<Timestamp>, last: Option<Timestamp>) -> (r: Option<u32>)
    ensures
        r == spec_duration_minutes(first, last),
{
    match (first, last) {
        (Some(f), Some(l)) => {
            let d = l.total_nanos() - f.total_nanos();
            if d >= 0 {
                Some((d / 60_000_000_000) as u32)
            } else {
                Some(0)
            }
        },
        _ => None,
    }
}

fn is_search_only_turn(turn: &AssistantTurn, read: &String, grep: &String, glob: &String) -> (r:
    bool)
    requires
        read@ == "Read"@,
        grep@ == "Grep"@,
        glob@ == "Glob"@,
    ensures
        r == search_only(*turn),
{
    if turn.tools.len() == 0 {
        return false;
    }
    let mut j: usize = 0;
    while j < turn.tools.len()
        invariant
            j <= turn.tools.len(),
            read@ == "Read"@,
            grep@ == "Grep"@,
            glob@ == "Glob"@,
            forall|k: int| 0 <= k < j ==> is_search_tool(#[trigger] turn.tools@[k].name@),
        decreases turn.tools.len() - j,
    {
        if !is_search_name(&turn.tools[j].name, read, grep, glob) {
            return false;
        }
        j = j + 1;
    }
    true
}

fn has_edit_tool(turn: &AssistantTurn, edit: &String, write: &String, multi: &String) -> (r: bool)
    requires
        edit@ == "Edit"@,
        write@ == "Write"@,
        multi@ == "MultiEdit"@,
    ensures
        r == has_edit(*turn),
{
    let mut j: usize = 0;
    while j < turn.tools.len()
        invariant
            j <= turn.tools.len(),
            edit@ == "Edit"@,
            write@ == "Write"@,
            multi@ == "MultiEdit"@,
            forall|k: int| 0 <= k < j ==> !is_edit_tool(#[trigger] turn.tools@[k].name@),
        decreases turn.tools.len() - j,
    {
        if is_edit_name(&turn.tools[j].name, edit, write, multi) {
            return true;
        }
        j = j + 1;
    }
    false
}

fn topic_shift_count(turns: &Vec<AssistantTurn>) -> (r: u64)
    ensures
        r == saturate(spec_topic_shifts(turns@)),
{
    if turns.len() < 3 {
        return 0;
    }
    let read = String::from_str("Read");
    let grep = String::from_str("Grep");
    let glob = String::from_str("Glob");
    let edit = String::from_str("Edit");
    let write = String::from_str("Write");
    let multi = String::from_str("MultiEdit");
    let mut shifts: u64 = 0;
    let mut i: usize = 0;
    while i < turns.len() - 2
        invariant
            turns.len() >= 3,
            i <= turns.len() - 2,
            read@ == "Read"@,
            grep@ == "Grep"@,
            glob@ == "Glob"@,
            edit@ == "Edit"@,
            write@ == "Write"@,
            multi@ == "MultiEdit"@,
            shifts == saturate(shifts_upto(turns@, i as int)),
        decreases turns.len() - 2 - i,
    {
        if is_search_only_turn(&turns[i], &read, &grep, &glob) && is_search_only_turn(
            &turns[i + 1],
            &read,
            &grep,
            &glob,
        ) && has_edit_tool(&turns[i + 2], &edit, &write, &multi) {
            if shifts < u64::MAX {
                shifts = shifts + 1;
            }
        }
        i = i + 1;
    }
    shifts
}

/// Windows of three consecutive turns, starting before index `n`, in which
/// each turn invokes at least one tool.
pub open spec fn tool_windows_upto(turns: Seq<AssistantTurn>, n: int) -> nat
    decreases n,
{
    if n <= 0 {
        0
    } else {
        tool_windows_upto(turns, n - 1) + if turns[n - 1].tools@.len() > 0 && turns[n].tools@.len()
            > 0 && turns[n + 1].tools@.len() > 0 {
            1nat
        } else {
            0nat
        }
    }
}

proof fn lemma_shifts_within_tool_windows(turns: Seq<AssistantTurn>, n: int)
    requires
        n + 2 <= turns.len(),
    ensures
        shifts_upto(turns, n) <= tool_windows_upto(turns, n),
    decreases n,
{
    if n > 0 {
        lemma_shifts_within_tool_windows(turns, n - 1);
        if shift_at(turns, n - 1) {
            let t = turns[n + 1];
            let j = choose|j: int| 0 <= j < t.tools@.len() && is_edit_tool(#[trigger] t.tools@[j].name@);
        }
    }
}

/// A topic shift takes three consecutive turns that each invoke a tool (two
/// that search, then one that edits): the topic shifts of a session never
/// outnumber the
/// windows of three consecutive turns that each invoke at least one tool,
/// so a session whose turns invoke no tools, or never three in a row, has
/// no topic shift.
pub proof fn lemma_topic_shifts_need_tool_turns(p: ParseResult)
    ensures
        spec_topic_shifts(p.assistant_turns@) <= if p.assistant_turns@.len() < 3 {
            0
        } else {
            tool_windows_upto(p.assistant_turns@, p.assistant_turns@.len() - 2)
        },
        (p.assistant_turns@.len() < 3 || tool_windows_upto(
            p.assistant_turns@,
            p.assistant_turns@.len() - 2,
        ) == 0) ==> spec_signals(p).topic_shift_count == 0,
{
    let turns = p.assistant_turns@;
    if turns.len() >= 3 {
        lemma_shifts_within_tool_windows(turns, turns.len() - 2);
    }
}

} // verus!
