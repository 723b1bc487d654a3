//! Anomaly kinds, the model-mix check and compression analysis.
//!
//! The statistical checks (means and standard deviations of costs, tokens,
//! turns and cache hit rates) work on floating-point values and are run by
//! the caller; the checks on counts are here.
use vstd::prelude::*;

use crate::text::{opt_view, str_contains, string_views};
use crate::types::{CompressionEvent, ParseResult};

verus! {

/// Types of anomalies that can be detected.
#[derive(Debug, Clone, Copy, PartialEq, Eq, Structural)]
pub enum AnomalyType {
    HighTokenUsage,
    HighCost,
    UnusualModelMix,
    ExcessiveToolUse,
    LowCacheHitRate,
    CostInefficient,
}

/// The short label of an anomaly kind in reports.
pub open spec fn spec_anomaly_label(t: AnomalyType) -> Seq<char> {
    match t {
        AnomalyType::HighTokenUsage => "HIGH_TOKENS"@,
        AnomalyType::HighCost => "HIGH_COST"@,
        AnomalyType::UnusualModelMix => "UNUSUAL_MODELS"@,
        AnomalyType::ExcessiveToolUse => "EXCESSIVE_TOOLS"@,
        AnomalyType::LowCacheHitRate => "LOW_CACHE_HIT"@,
        AnomalyType::CostInefficient => "COST_INEFFICIENT"@,
    }
}

/// The short label of an anomaly kind in reports.
pub fn anomaly_type_label(t: &AnomalyType) -> (r: &'static str)
    ensures
        r@ == spec_anomaly_label(*t),
{
    match t {
        AnomalyType::HighTokenUsage => "HIGH_TOKENS",
        AnomalyType::HighCost => "HIGH_COST",
        AnomalyType::UnusualModelMix => "UNUSUAL_MODELS",
        AnomalyType::ExcessiveToolUse => "EXCESSIVE_TOOLS",
        AnomalyType::LowCacheHitRate => "LOW_CACHE_HIT",
        AnomalyType::CostInefficient => "COST_INEFFICIENT",
    }
}

/// The fewest distinct models that make a session's model mix unusual.
pub const UNUSUAL_MODEL_COUNT: u32 = 3;

/// Session `id` is one of `sessions` (session id and project path) and
/// belongs to the project `project`.
pub open spec fn in_project(sessions: Seq<(Seq<char>, Seq<char>)>, id: Seq<char>, project: Seq<char>) -> bool {
    exists|j: int| 0 <= j < sessions.len() && #[trigger] sessions[j] == (id, project)
}

/// The sessions of `multi` (session id and number of distinct models) that
/// are reported as an unusual model mix: all of them, or with a project
/// filter those that belong to the project.
pub open spec fn spec_model_mix(
    multi: Seq<(Seq<char>, u32)>,
    sessions: Seq<(Seq<char>, Seq<char>)>,
    project: Option<Seq<char>>,
) -> Seq<(Seq<char>, u32)>
    decreases multi.len(),
{
    if multi.len() == 0 {
        Seq::empty()
    } else {
        let rest = spec_model_mix(multi.drop_last(), sessions, project);
        let (id, count) = multi.last();
        let keep = match project {
            Some(p) => in_project(sessions, id, p),
            None => true,
        };
        if keep {
            rest.push((id, count))
        } else {
            rest
        }
    }
}

/// Pairs of strings as values.
pub open spec fn pair_views(v: Seq<(String, String)>) -> Seq<(Seq<char>, Seq<char>)> {
    v.map_values(|p: (String, String)| (p.0@, p.1@))
}

/// Strings with counts as values.
pub open spec fn count_views(v: Seq<(String, u32)>) -> Seq<(Seq<char>, u32)> {
    v.map_values(|p: (String, u32)| (p.0@, p.1))
}

fn belongs_to(sessions: &Vec<(String, String)>, id: &String, project: &String) -> (r: bool)
    ensures
        r == in_project(pair_views(sessions@), id@, project@),
{
    let mut j: usize = 0;
    while j < sessions.len()
        invariant
            j <= sessions.len(),
            forall|k: int| 0 <= k < j ==> #[trigger] pair_views(sessions@)[k] != (id@, project@),
        decreases sessions.len() - j,
    {
        if sessions[j].0 == *id && sessions[j].1 == *project {
            assert(pair_views(sessions@)[j as int] == (id@, project@));
            return true;
        }
        j = j + 1;
    }
    false
}

/// The unusual-model-mix findings: of the sessions using at least three
/// distinct models (`multi_model_sessions`, as the database lists them),
/// those that belong to `project_path` when one is given (`sessions` are the
/// scanned sessions with their project paths), in the order given.
pub fn unusual_model_mix(
    multi_model_sessions: &Vec<(String, u32)>,
    sessions: &Vec<(String, String)>,
    project_path: Option<&str>,
) -> (r: Vec<(String, u32)>)
    ensures
        count_views(r@) == spec_model_mix(
            count_views(multi_model_sessions@),
            pair_views(sessions@),
            match project_path {
                Some(p) => Some(p@),
                None => None,
            },
        ),
{
    let project: Option<String> = match project_path {
        Some(p) => Some(String::from_str(p)),
        None => None,
    };
    let mut out: Vec<(String, u32)> = Vec::new();
    let mut i: usize = 0;
    while i < multi_model_sessions.len()
        invariant
            i <= multi_model_sessions.len(),
            opt_view(project) == match project_path {
                Some(p) => Some(p@),
                None => None::<Seq<char>>,
            },
            count_views(out@) == spec_model_mix(
                count_views(multi_model_sessions@).take(i as int),
                pair_views(sessions@),
                opt_view(project),
            ),
        decreases multi_model_sessions.len() - i,
    {
        assert(count_views(multi_model_sessions@).take(i + 1).drop_last() =~= count_views(
            multi_model_sessions@,
        ).take(i as int));
        let keep = match &project {
            Some(p) => belongs_to(sessions, &multi_model_sessions[i].0, p),
            None => true,
        };
        if keep {
            let id = multi_model_sessions[i].0.clone();
            out.push((id, multi_model_sessions[i].1));
        }
        i = i + 1;
        assert(count_views(out@) =~= spec_model_mix(
            count_views(multi_model_sessions@).take(i as int),
            pair_views(sessions@),
            opt_view(project),
        ));
    }
    assert(count_views(multi_model_sessions@).take(multi_model_sessions.len() as int)
        =~= count_views(multi_model_sessions@));
    out
}

// ============================================================
// Compression analysis
// ============================================================
/// Higher-level compression analysis of one session.
pub struct CompressionAnalysis {
    pub events: Vec<CompressionEvent>,
    pub total_compressions: usize,
    pub estimated_tokens_recovered: u64,
    pub has_compact_agent: bool,
}

/// The cache-read counts before the compressions, added up.
pub open spec fn recovered_sum(events: Seq<CompressionEvent>) -> nat
    decreases events.len(),
{
    if events.len() == 0 {
        0
    } else {
        recovered_sum(events.drop_last()) + events.last().cache_read_before as nat
    }
}

/// The agent id names a compaction agent: it contains `compact`.
pub open spec fn is_compact_agent(agent_id: Option<Seq<char>>) -> bool {
    match agent_id {
        Some(id) => crate::text::contains_seq(id, "compact"@),
        None => false,
    }
}

/// Analyze the compression events of a parsed session: the events, their
/// number, the cache-read tokens they had before compressing (an estimate
/// of what was recovered), and whether the log is a compaction agent's.
pub fn analyze_compression(result: &ParseResult) -> (r: CompressionAnalysis)
    requires
        recovered_sum(result.compression_events@) <= u64::MAX,
    ensures
        r.events@ == result.compression_events@,
        r.total_compressions == result.compression_events@.len(),
        r.estimated_tokens_recovered == recovered_sum(result.compression_events@),
        r.has_compact_agent == is_compact_agent(opt_view(result.agent_id)),
{
    let mut events: Vec<CompressionEvent> = Vec::new();
    let mut sum: u64 = 0;
    let mut i: usize = 0;
    while i < result.compression_events.len()
        invariant
            i <= result.compression_events.len(),
            events@ == result.compression_events@.take(i as int),
            sum == recovered_sum(result.compression_events@.take(i as int)),
            recovered_sum(result.compression_events@) <= u64::MAX,
        decreases result.compression_events.len() - i,
    {
        let e = result.compression_events[i];
        assert(result.compression_events@.take(i + 1).drop_last()
            =~= result.compression_events@.take(i as int));
        proof {
            lemma_recovered_sum_prefix(result.compression_events@, i + 1);
        }
        sum = sum + e.cache_read_before;
        events.push(e);
        i = i + 1;
        assert(events@ =~= result.compression_events@.take(i as int));
    }
    assert(result.compression_events@.take(i as int) =~= result.compression_events@);
    let has_compact_agent = match &result.agent_id {
        Some(id) => str_contains(id.as_str(), "compact"),
        None => false,
    };
    let total_compressions = events.len();
    CompressionAnalysis {
        events,
        total_compressions,
        estimated_tokens_recovered: sum,
        has_compact_agent,
    }
}

proof fn lemma_recovered_sum_prefix(events: Seq<CompressionEvent>, k: int)
    requires
        0 <= k <= events.len(),
    ensures
        recovered_sum(events.take(k)) <= recovered_sum(events),
    decreases events.len() - k,
{
    if k < events.len() {
        lemma_recovered_sum_prefix(events, k + 1);
        assert(events.take(k + 1).drop_last() =~= events.take(k));
    } else {
        assert(events.take(k) =~= events);
    }
}

} // verus!
