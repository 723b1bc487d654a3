//! The token side of session, project and trend analysis.
//!
//! Shares and rates are exact fractions of token counts ([`Ratio`]); the
//! caller turns them into percentages and adds the dollar costs, which come
//! from floating-point prices.
use vstd::prelude::*;

use crate::ratio::Ratio;
use crate::types::{ModelUsage, ParseResult};

verus! {

/// Tool ranking entry with session count.
pub struct ToolRankEntry {
    pub name: String,
    pub total_invocations: u64,
    pub session_count: u64,
}

impl View for ToolRankEntry {
    type V = (Seq<char>, u64, u64);

    open spec fn view(&self) -> Self::V {
        (self.name@, self.total_invocations, self.session_count)
    }
}

/// Rows of (tool name, invocations, sessions) as values.
pub open spec fn rank_row_views(rows: Seq<(String, u64, u64)>) -> Seq<(Seq<char>, u64, u64)> {
    rows.map_values(|r: (String, u64, u64)| (r.0@, r.1, r.2))
}

/// The tool ranking of a project: one entry per row (tool name, total
/// invocations, number of sessions using it), in the order of the rows.
pub fn tool_rank_entries(rows: Vec<(String, u64, u64)>) -> (r: Vec<ToolRankEntry>)
    ensures
        r@.map_values(|e: ToolRankEntry| e@) == rank_row_views(rows@),
{
    let mut out: Vec<ToolRankEntry> = Vec::new();
    let mut i: usize = 0;
    while i < rows.len()
        invariant
            i <= rows.len(),
            out@.len() == i,
            forall|j: int| 0 <= j < i ==> #[trigger] out@[j]@ == rank_row_views(rows@)[j],
        decreases rows.len() - i,
    {
        let name = rows[i].0.clone();
        let entry = ToolRankEntry {
            name,
            total_invocations: rows[i].1,
            session_count: rows[i].2,
        };
        assert(entry@ == rank_row_views(rows@)[i as int]);
        out.push(entry);
        i = i + 1;
    }
    assert(out@.map_values(|e: ToolRankEntry| e@) =~= rank_row_views(rows@));
    out
}

// ============================================================
// Session token breakdown
// ============================================================
/// Tokens of one model within a session.
pub struct ModelTokens {
    pub model: String,
    pub turn_count: u64,
    pub total_tokens: u64,
    /// Share of the session's tokens.
    pub token_share: Ratio,
}

/// The token side of a session analysis.
pub struct TokenBreakdown {
    pub total_tokens: u64,
    pub input_tokens: u64,
    pub output_tokens: u64,
    pub cache_creation_tokens: u64,
    pub cache_read_tokens: u64,
    pub input_share: Ratio,
    pub output_share: Ratio,
    pub cache_creation_share: Ratio,
    pub cache_read_share: Ratio,
    /// Cache reads over everything read as input (fresh, cached, written).
    pub cache_hit_rate: Ratio,
    pub total_turns: u64,
    pub tokens_per_turn: Ratio,
    pub models: Vec<ModelTokens>,
}

/// All tokens of one model's usage.
pub open spec fn model_total(m: ModelUsage) -> nat {
    (m.total_input + m.total_output + m.total_cache_creation + m.total_cache_read) as nat
}

/// All tokens of a session.
pub open spec fn session_total(p: ParseResult) -> nat {
    (p.total_input_tokens + p.total_output_tokens + p.total_cache_creation_tokens
        + p.total_cache_read_tokens) as nat
}

/// Each model's token counts add up to a count that fits in `u64`.
pub open spec fn model_totals_fit(models: Seq<ModelUsage>) -> bool {
    forall|i: int| 0 <= i < models.len() ==> model_total(#[trigger] models[i]) <= u64::MAX
}

/// `r` is the fraction `num / den`.
pub open spec fn is_fraction(r: Ratio, num: nat, den: nat) -> bool {
    r.num == num && r.den == den
}

/// The entry of `m` in the breakdown of a session with `total` tokens.
pub open spec fn model_entry_of(e: ModelTokens, m: ModelUsage, total: nat) -> bool {
    &&& e.model@ == m.model@
    &&& e.turn_count == m.turn_count
    &&& e.total_tokens == model_total(m)
    &&& is_fraction(e.token_share, model_total(m), total)
}

/// `b` is the token breakdown of the session `p`.
pub open spec fn is_breakdown_of(b: TokenBreakdown, p: ParseResult) -> bool {
    &&& b.total_tokens == session_total(p)
    &&& b.input_tokens == p.total_input_tokens
    &&& b.output_tokens == p.total_output_tokens
    &&& b.cache_creation_tokens == p.total_cache_creation_tokens
    &&& b.cache_read_tokens == p.total_cache_read_tokens
    &&& is_fraction(b.input_share, p.total_input_tokens as nat, session_total(p))
    &&& is_fraction(b.output_share, p.total_output_tokens as nat, session_total(p))
    &&& is_fraction(b.cache_creation_share, p.total_cache_creation_tokens as nat, session_total(p))
    &&& is_fraction(b.cache_read_share, p.total_cache_read_tokens as nat, session_total(p))
    &&& is_fraction(
        b.cache_hit_rate,
        p.total_cache_read_tokens as nat,
        (p.total_input_tokens + p.total_cache_read_tokens + p.total_cache_creation_tokens) as nat,
    )
    &&& b.total_turns == p.total_turns
    &&& is_fraction(b.tokens_per_turn, session_total(p), p.total_turns as nat)
    &&& b.models@.len() == p.model_usage@.len()
    &&& forall|i: int|
        0 <= i < b.models@.len() ==> model_entry_of(
            #[trigger] b.models@[i],
            p.model_usage@[i],
            session_total(p),
        )
}

/// The token breakdown of a parsed session: the four counts and their sum,
/// each count's share of the sum, the cache hit rate (cache reads over
/// input, cache reads and cache writes), tokens per turn, and per model its
/// turns, tokens and share of the session's tokens.  A zero denominator
/// stands for a zero share.
pub fn session_token_breakdown(result: &ParseResult) -> (r: TokenBreakdown)
    requires
        result.totals_fit(),
        model_totals_fit(result.model_usage@),
    ensures
        is_breakdown_of(r, *result),
{
    let total = result.total_input_tokens + result.total_output_tokens
        + result.total_cache_creation_tokens + result.total_cache_read_tokens;
    let cache_den = result.total_input_tokens + result.total_cache_read_tokens
        + result.total_cache_creation_tokens;
    let mut models: Vec<ModelTokens> = Vec::new();
    let mut i: usize = 0;
    while i < result.model_usage.len()
        invariant
            i <= result.model_usage.len(),
            total == session_total(*result),
            model_totals_fit(result.model_usage@),
            models@.len() == i,
            forall|j: int|
                0 <= j < i ==> model_entry_of(
                    #[trigger] models@[j],
                    result.model_usage@[j],
                    session_total(*result),
                ),
        decreases result.model_usage.len() - i,
    {
        let m = &result.model_usage[i];
        assert(model_total(result.model_usage@[i as int]) <= u64::MAX);
        let t = m.total_input + m.total_output + m.total_cache_creation + m.total_cache_read;
        models.push(
            ModelTokens {
                model: m.model.clone(),
                turn_count: m.turn_count,
                total_tokens: t,
                token_share: Ratio::new(t, total),
            },
        );
        i = i + 1;
    }
    TokenBreakdown {
        total_tokens: total,
        input_tokens: result.total_input_tokens,
        output_tokens: result.total_output_tokens,
        cache_creation_tokens: result.total_cache_creation_tokens,
        cache_read_tokens: result.total_cache_read_tokens,
        input_share: Ratio::new(result.total_input_tokens, total),
        output_share: Ratio::new(result.total_output_tokens, total),
        cache_creation_share: Ratio::new(result.total_cache_creation_tokens, total),
        cache_read_share: Ratio::new(result.total_cache_read_tokens, total),
        cache_hit_rate: Ratio::new(result.total_cache_read_tokens, cache_den),
        total_turns: result.total_turns,
        tokens_per_turn: Ratio::new(total, result.total_turns),
        models,
    }
}

/// The four token shares of a session add up to the whole (they have the
/// session's tokens as common denominator and its counts as numerators),
/// and the cache hit rate is at most one.
pub proof fn lemma_shares_add_up(b: TokenBreakdown, p: ParseResult)
    requires
        is_breakdown_of(b, p),
    ensures
        b.input_share.den == b.output_share.den == b.cache_creation_share.den
            == b.cache_read_share.den == b.total_tokens,
        b.input_share.num + b.output_share.num + b.cache_creation_share.num
            + b.cache_read_share.num == b.total_tokens,
        b.cache_hit_rate.num <= b.cache_hit_rate.den,
{
}

/// Each model's share is its own tokens (input, output, cache writes and
/// cache reads) out of all the session's tokens.
pub proof fn lemma_model_share_of_all_tokens(b: TokenBreakdown, p: ParseResult)
    requires
        is_breakdown_of(b, p),
    ensures
        forall|i: int|
            0 <= i < b.models@.len() ==> {
                let m = p.model_usage@[i];
                &&& (#[trigger] b.models@[i]).token_share.den == p.total_input_tokens
                    + p.total_output_tokens + p.total_cache_creation_tokens
                    + p.total_cache_read_tokens
                &&& b.models@[i].token_share.num == m.total_input + m.total_output
                    + m.total_cache_creation + m.total_cache_read
                &&& b.models@[i].token_share.den == b.total_tokens
            },
{
    assert forall|i: int| 0 <= i < b.models@.len() implies {
        let m = p.model_usage@[i];
        &&& (#[trigger] b.models@[i]).token_share.den == p.total_input_tokens
            + p.total_output_tokens + p.total_cache_creation_tokens + p.total_cache_read_tokens
        &&& b.models@[i].token_share.num == m.total_input + m.total_output
            + m.total_cache_creation + m.total_cache_read
        &&& b.models@[i].token_share.den == b.total_tokens
    } by {
        assert(model_entry_of(b.models@[i], p.model_usage@[i], session_total(p)));
    }
}

/// The share of subagent tokens among all tokens of a project or of every
/// project.
pub fn subagent_token_share(main_tokens: u64, subagent_tokens: u64) -> (r: Ratio)
    requires
        main_tokens + subagent_tokens <= u64::MAX,
    ensures
        is_fraction(r, subagent_tokens as nat, (main_tokens + subagent_tokens) as nat),
{
    Ratio::new(subagent_tokens, main_tokens + subagent_tokens)
}

// ============================================================
// Trend
// ============================================================
/// The counts of one day of a trend.
pub struct DayCounts {
    pub date: String,
    pub input: u64,
    pub output: u64,
    pub cache_creation: u64,
    pub cache_read: u64,
    pub sessions: u64,
}

/// All tokens of one day: input, output, cache writes and cache reads.
pub open spec fn day_total(d: DayCounts) -> nat {
    (d.input + d.output + d.cache_creation + d.cache_read) as nat
}

/// All tokens of the days `days`.
pub open spec fn days_sum(days: Seq<DayCounts>) -> nat
    decreases days.len(),
{
    if days.len() == 0 {
        0
    } else {
        days_sum(days.drop_last()) + day_total(days.last())
    }
}

/// All sessions of the days `days`.
pub open spec fn sessions_sum(days: Seq<DayCounts>) -> nat
    decreases days.len(),
{
    if days.len() == 0 {
        0
    } else {
        sessions_sum(days.drop_last()) + days.last().sessions as nat
    }
}

/// A prefix of the days has no more tokens and no more sessions than all
/// of them.
pub proof fn lemma_days_sum_prefix(days: Seq<DayCounts>, k: int)
    requires
        0 <= k <= days.len(),
    ensures
        days_sum(days.take(k)) <= days_sum(days),
        sessions_sum(days.take(k)) <= sessions_sum(days),
    decreases days.len() - k,
{
    if k < days.len() {
        lemma_days_sum_prefix(days, k + 1);
        assert(days.take(k + 1).drop_last() =~= days.take(k));
    } else {
        assert(days.take(k) =~= days);
    }
}

/// All tokens of one day.
pub fn day_tokens(d: &DayCounts) -> (r: u64)
    requires
        day_total(*d) <= u64::MAX,
    ensures
        r == day_total(*d),
{
    d.input + d.output + d.cache_creation + d.cache_read
}

/// Average tokens per day of a trend (integer division; zero without days).
pub fn average_daily_tokens(days: &Vec<DayCounts>) -> (r: u64)
    requires
        days_sum(days@) <= u64::MAX,
    ensures
        r == if days@.len() == 0 {
            0
        } else {
            days_sum(days@) / (days@.len() as nat)
        },
{
    let mut sum: u64 = 0;
    let mut i: usize = 0;
    while i < days.len()
        invariant
            i <= days.len(),
            sum == days_sum(days@.take(i as int)),
            days_sum(days@) <= u64::MAX,
        decreases days.len() - i,
    {
        assert(days@.take(i + 1).drop_last() =~= days@.take(i as int));
        proof {
            lemma_days_sum_prefix(days@, i + 1);
        }
        sum = sum + day_tokens(&days[i]);
        i = i + 1;
    }
    assert(days@.take(days.len() as int) =~= days@);
    if days.len() == 0 {
        0
    } else {
        sum / (days.len() as u64)
    }
}

} // verus!
