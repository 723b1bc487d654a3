//! Session pattern classifier.
//!
//! Evaluates hard signals from a session and returns a [`PatternResult`]
//! that names the dominant usage pattern, its severity, and the evidence
//! that triggered the classification.
//!
//! Patterns are evaluated in priority order, highest first:
//! `ColdSession` > `CorrectionSpiral` > `SubagentSwarm` > `KitchenSink` >
//! `Marathon` > `Observer` > `Normal`; the first one that matches wins.
use vstd::prelude::*;

use crate::ratio::Ratio;
use crate::text::decimal_string;
use vstd::string::StringExecFns;

verus! {

// Thresholds.  Rates are given in percent.
/// Cache hit rate (percent) below which `ColdSession` is reported at `Warn`.
pub const COLD_SESSION_CACHE_HIT_WARN_PCT: u64 = 30;

/// Cache hit rate (percent) below which `ColdSession` is reported at `Alert`.
pub const COLD_SESSION_CACHE_HIT_ALERT_PCT: u64 = 15;

/// Repeated-edit peak at or above which (with the output ratio) `CorrectionSpiral` is a warning.
pub const CORRECTION_SPIRAL_EDIT_PEAK_WARN: u32 = 4;

/// Repeated-edit peak at or above which (with the output ratio) `CorrectionSpiral` is an alert.
pub const CORRECTION_SPIRAL_EDIT_PEAK_ALERT: u32 = 8;

/// Output token ratio (percent) above which (with the edit peak) `CorrectionSpiral` is a warning.
pub const CORRECTION_SPIRAL_OUTPUT_RATIO_WARN_PCT: u64 = 40;

/// Output token ratio (percent) above which (with the edit peak) `CorrectionSpiral` is an alert.
pub const CORRECTION_SPIRAL_OUTPUT_RATIO_ALERT_PCT: u64 = 60;

/// Subagent count above which `SubagentSwarm` is reported at `Warn`.
pub const SUBAGENT_SWARM_COUNT_WARN: u32 = 10;

/// Subagent count above which `SubagentSwarm` is reported at `Alert`.
pub const SUBAGENT_SWARM_COUNT_ALERT: u32 = 20;

/// Topic-shift count above which `KitchenSink` is reported at `Info`.
pub const KITCHEN_SINK_TOPIC_SHIFT_INFO: u32 = 3;

/// Topic-shift count above which `KitchenSink` is reported at `Warn`.
pub const KITCHEN_SINK_TOPIC_SHIFT_WARN: u32 = 6;

/// Minimum turn count for the `Marathon` turn condition.
pub const MARATHON_TURN_COUNT: u32 = 100;

/// Minimum session duration (minutes) for the `Marathon` duration condition.
pub const MARATHON_DURATION_MIN: u32 = 120;

/// Minimum cache hit rate (percent) for the `Marathon` cache condition.
pub const MARATHON_CACHE_HIT_PCT: u64 = 70;

/// Turn count strictly below this qualifies as `Observer`.
pub const OBSERVER_MAX_TURNS: u32 = 20;

/// Repeated-edit peak at or below this qualifies as `Observer`.
pub const OBSERVER_MAX_EDIT_PEAK: u32 = 1;

/// Sessions with fewer turns than this are rejected by [`classify_with_validation`].
pub const MIN_TURNS_FOR_CLASSIFICATION: u32 = 3;

/// Hard signals extracted from a single session.
#[derive(Debug, Clone, Copy)]
pub struct Signals {
    /// Fraction of input tokens served from cache.
    pub cache_hit_rate: Ratio,
    /// Fraction of input plus output tokens that are output tokens.
    pub output_token_ratio: Ratio,
    /// Number of sub-agent invocations in the session.
    pub subagent_count: u32,
    /// Peak number of times the same file was edited within the session.
    pub repeated_edit_peak: u32,
    /// Total conversation turns.
    pub turn_count: u32,
    /// Wall-clock session duration in minutes, if available.
    pub duration_minutes: Option<u32>,
    /// Number of topic shifts detected in the conversation.
    pub topic_shift_count: u32,
}

/// Classified session usage pattern.
#[derive(Debug, Clone, Copy, PartialEq, Eq, Structural)]
pub enum Pattern {
    /// No unusual characteristics detected.
    Normal,
    /// Cache hit rate is abnormally low.
    ColdSession,
    /// Repeated edits to the same file suggest a correction loop.
    CorrectionSpiral,
    /// Unusually many sub-agents were spawned in one session.
    SubagentSwarm,
    /// Several unrelated topics were addressed in one session.
    KitchenSink,
    /// Long, cache-warm session.
    Marathon,
    /// Short session dominated by reads and searches.
    Observer,
}

/// Severity level of a detected pattern.
#[derive(Debug, Clone, Copy, PartialEq, Eq, Structural)]
pub enum Severity {
    /// Informational.
    Info,
    /// Worth reviewing.
    Warn,
    /// Immediate attention recommended.
    Alert,
}

/// Which side of a threshold the observed value fell on.
#[derive(Debug, Clone, Copy, PartialEq, Eq, Structural)]
pub enum Direction {
    /// Observed value is above the threshold.
    Above,
    /// Observed value equals the threshold.
    Equal,
    /// Observed value is below the threshold.
    Below,
}

/// A single piece of evidence supporting the classification.
#[derive(Debug)]
pub struct Evidence {
    /// Signal name (e.g. `"cache_hit_rate"`).
    pub metric: String,
    /// Observed value of the signal.
    pub value: Ratio,
    /// The threshold that was crossed to reach this severity level.
    pub threshold: Ratio,
    /// Whether the observed value was above, at or below the threshold.
    pub direction: Direction,
}

impl View for Evidence {
    type V = (Seq<char>, Ratio, Ratio, Direction);

    open spec fn view(&self) -> Self::V {
        (self.metric@, self.value, self.threshold, self.direction)
    }
}

/// Result of classifying a session's usage pattern.
#[derive(Debug)]
pub struct PatternResult {
    /// The dominant pattern detected.
    pub pattern: Pattern,
    /// The signals that were classified.
    pub signals: Signals,
    /// Severity of the detected pattern.
    pub severity: Severity,
    /// Signals that triggered the classification (empty for `Normal`).
    pub evidence: Vec<Evidence>,
}

/// Why a session was not classified.
#[derive(Debug, Clone, Copy, PartialEq, Eq, Structural)]
pub enum ClassifyError {
    /// The session has fewer turns than [`MIN_TURNS_FOR_CLASSIFICATION`].
    InsufficientData { turn_count: u32, minimum: u32 },
}

// ============================================================
// Specification
// ============================================================

/// The side of `threshold` on which `value` lies; values less than
/// `f64::EPSILON` apart count as equal.
pub open spec fn direction_of(value: Ratio, threshold: Ratio) -> Direction {
    if value.spec_within_epsilon(threshold) {
        Direction::Equal
    } else if threshold.spec_lt(value) {
        Direction::Above
    } else {
        Direction::Below
    }
}

/// One piece of evidence, as a value.
pub open spec fn ev(metric: Seq<char>, value: Ratio, threshold: Ratio) -> (
    Seq<char>,
    Ratio,
    Ratio,
    Direction,
) {
    (metric, value, threshold, direction_of(value, threshold))
}

/// The evidence list of a result, as values.
pub open spec fn evidence_view(evidence: Seq<Evidence>) -> Seq<(Seq<char>, Ratio, Ratio, Direction)> {
    evidence.map_values(|e: Evidence| e@)
}

pub open spec fn whole(n: u32) -> Ratio {
    Ratio::spec_whole(n as u64)
}

pub open spec fn pct(p: u64) -> Ratio {
    Ratio::spec_percent(p)
}

pub open spec fn cold_alert(s: Signals) -> bool {
    s.cache_hit_rate.spec_lt(pct(COLD_SESSION_CACHE_HIT_ALERT_PCT))
}

pub open spec fn cold_warn(s: Signals) -> bool {
    s.cache_hit_rate.spec_lt(pct(COLD_SESSION_CACHE_HIT_WARN_PCT))
}

pub open spec fn spiral_edit_alert(s: Signals) -> bool {
    s.repeated_edit_peak >= CORRECTION_SPIRAL_EDIT_PEAK_ALERT
}

pub open spec fn spiral_edit_warn(s: Signals) -> bool {
    s.repeated_edit_peak >= CORRECTION_SPIRAL_EDIT_PEAK_WARN
}

pub open spec fn spiral_ratio_alert(s: Signals) -> bool {
    pct(CORRECTION_SPIRAL_OUTPUT_RATIO_ALERT_PCT).spec_lt(s.output_token_ratio)
}

pub open spec fn spiral_ratio_warn(s: Signals) -> bool {
    pct(CORRECTION_SPIRAL_OUTPUT_RATIO_WARN_PCT).spec_lt(s.output_token_ratio)
}

/// Both correction-spiral conditions hold at warning level.
pub open spec fn spiral(s: Signals) -> bool {
    spiral_edit_warn(s) && spiral_ratio_warn(s)
}

pub open spec fn marathon_turns(s: Signals) -> bool {
    s.turn_count >= MARATHON_TURN_COUNT
}

pub open spec fn marathon_duration(s: Signals) -> bool {
    match s.duration_minutes {
        Some(d) => d >= MARATHON_DURATION_MIN,
        None => false,
    }
}

pub open spec fn marathon_cache(s: Signals) -> bool {
    !s.cache_hit_rate.spec_lt(pct(MARATHON_CACHE_HIT_PCT))
}

/// Number of marathon conditions that hold.
pub open spec fn marathon_count(s: Signals) -> int {
    (if marathon_turns(s) {
        1int
    } else {
        0int
    }) + (if marathon_duration(s) {
        1int
    } else {
        0int
    }) + (if marathon_cache(s) {
        1int
    } else {
        0int
    })
}

pub open spec fn marathon(s: Signals) -> bool {
    marathon_count(s) >= 2
}

pub open spec fn observer(s: Signals) -> bool {
    s.turn_count < OBSERVER_MAX_TURNS && s.repeated_edit_peak <= OBSERVER_MAX_EDIT_PEAK
}

/// The pattern that [`classify`] reports: the first that matches, in priority order.
pub open spec fn spec_pattern(s: Signals) -> Pattern {
    if cold_warn(s) {
        Pattern::ColdSession
    } else if spiral(s) {
        Pattern::CorrectionSpiral
    } else if s.subagent_count > SUBAGENT_SWARM_COUNT_WARN {
        Pattern::SubagentSwarm
    } else if s.topic_shift_count > KITCHEN_SINK_TOPIC_SHIFT_INFO {
        Pattern::KitchenSink
    } else if marathon(s) {
        Pattern::Marathon
    } else if observer(s) {
        Pattern::Observer
    } else {
        Pattern::Normal
    }
}

/// The severity that [`classify`] reports.
pub open spec fn spec_severity(s: Signals) -> Severity {
    if cold_warn(s) {
        if cold_alert(s) {
            Severity::Alert
        } else {
            Severity::Warn
        }
    } else if spiral(s) {
        if spiral_edit_alert(s) || spiral_ratio_alert(s) {
            Severity::Alert
        } else {
            Severity::Warn
        }
    } else if s.subagent_count > SUBAGENT_SWARM_COUNT_WARN {
        if s.subagent_count > SUBAGENT_SWARM_COUNT_ALERT {
            Severity::Alert
        } else {
            Severity::Warn
        }
    } else if s.topic_shift_count > KITCHEN_SINK_TOPIC_SHIFT_INFO {
        if s.topic_shift_count > KITCHEN_SINK_TOPIC_SHIFT_WARN {
            Severity::Warn
        } else {
            Severity::Info
        }
    } else {
        Severity::Info
    }
}

/// Evidence of a kitchen-sink session at the given topic-shift threshold.
pub open spec fn kitchen_sink_ev(s: Signals, topic_threshold: u32) -> Seq<
    (Seq<char>, Ratio, Ratio, Direction),
> {
    let first = seq![ev("topic_shift_count"@, whole(s.topic_shift_count), whole(topic_threshold))];
    if s.repeated_edit_peak >= 2 {
        first.push(ev("repeated_edit_peak"@, whole(s.repeated_edit_peak), whole(2)))
    } else {
        first
    }
}

/// Evidence of a marathon session: one entry per condition that holds.
pub open spec fn marathon_ev(s: Signals) -> Seq<(Seq<char>, Ratio, Ratio, Direction)> {
    let a: Seq<(Seq<char>, Ratio, Ratio, Direction)> = if marathon_turns(s) {
        seq![ev("turn_count"@, whole(s.turn_count), whole(MARATHON_TURN_COUNT))]
    } else {
        seq![]
    };
    let b = if marathon_duration(s) {
        a.push(
            ev(
                "duration_minutes"@,
                whole(s.duration_minutes.unwrap()),
                whole(MARATHON_DURATION_MIN),
            ),
        )
    } else {
        a
    };
    if marathon_cache(s) {
        b.push(ev("cache_hit_rate"@, s.cache_hit_rate, pct(MARATHON_CACHE_HIT_PCT)))
    } else {
        b
    }
}

/// The evidence that [`classify`] reports.
pub open spec fn spec_evidence(s: Signals) -> Seq<(Seq<char>, Ratio, Ratio, Direction)> {
    if cold_warn(s) {
        let t = if cold_alert(s) {
            COLD_SESSION_CACHE_HIT_ALERT_PCT
        } else {
            COLD_SESSION_CACHE_HIT_WARN_PCT
        };
        seq![ev("cache_hit_rate"@, s.cache_hit_rate, pct(t))]
    } else if spiral(s) {
        let edit_t = if (spiral_edit_alert(s) || spiral_ratio_alert(s)) && spiral_edit_alert(s) {
            CORRECTION_SPIRAL_EDIT_PEAK_ALERT
        } else {
            CORRECTION_SPIRAL_EDIT_PEAK_WARN
        };
        let ratio_t = if (spiral_edit_alert(s) || spiral_ratio_alert(s)) && spiral_ratio_alert(s) {
            CORRECTION_SPIRAL_OUTPUT_RATIO_ALERT_PCT
        } else {
            CORRECTION_SPIRAL_OUTPUT_RATIO_WARN_PCT
        };
        seq![
            ev("repeated_edit_peak"@, whole(s.repeated_edit_peak), whole(edit_t)),
            ev("output_token_ratio"@, s.output_token_ratio, pct(ratio_t)),
        ]
    } else if s.subagent_count > SUBAGENT_SWARM_COUNT_WARN {
        let t = if s.subagent_count > SUBAGENT_SWARM_COUNT_ALERT {
            SUBAGENT_SWARM_COUNT_ALERT
        } else {
            SUBAGENT_SWARM_COUNT_WARN
        };
        seq![ev("subagent_count"@, whole(s.subagent_count), whole(t))]
    } else if s.topic_shift_count > KITCHEN_SINK_TOPIC_SHIFT_INFO {
        if s.topic_shift_count > KITCHEN_SINK_TOPIC_SHIFT_WARN {
            kitchen_sink_ev(s, KITCHEN_SINK_TOPIC_SHIFT_WARN)
        } else {
            kitchen_sink_ev(s, KITCHEN_SINK_TOPIC_SHIFT_INFO)
        }
    } else if marathon(s) {
        marathon_ev(s)
    } else if observer(s) {
        seq![
            ev("turn_count"@, whole(s.turn_count), whole(OBSERVER_MAX_TURNS)),
            ev("repeated_edit_peak"@, whole(s.repeated_edit_peak), whole(OBSERVER_MAX_EDIT_PEAK)),
        ]
    } else {
        seq![]
    }
}

/// `r` is exactly what classifying `s` yields.
pub open spec fn classified_as(r: PatternResult, s: Signals) -> bool {
    &&& r.pattern == spec_pattern(s)
    &&& r.severity == spec_severity(s)
    &&& r.signals == s
    &&& evidence_view(r.evidence@) == spec_evidence(s)
}

// ============================================================
// Public API
// ============================================================

/// Classify a session from its signals.
///
/// Patterns are evaluated in priority order; the first match wins.
/// Returns [`Pattern::Normal`] when no pattern is triggered.  Sessions with
/// fewer than [`MIN_TURNS_FOR_CLASSIFICATION`] turns are classified all the
/// same; [`classify_with_validation`] enforces the minimum.
pub fn classify(signals: Signals) -> (r: PatternResult)
    ensures
        classified_as(r, signals),
{
    if let Some(r) = check_cold_session(&signals) {
        return r;
    }
    if let Some(r) = check_correction_spiral(&signals) {
        return r;
    }
    if let Some(r) = check_subagent_swarm(&signals) {
        return r;
    }
    if let Some(r) = check_kitchen_sink(&signals) {
        return r;
    }
    if let Some(r) = check_marathon(&signals) {
        return r;
    }
    if let Some(r) = check_observer(&signals) {
        return r;
    }
    let r = build_result(Pattern::Normal, Severity::Info, signals, Vec::new());
    assert(evidence_view(r.evidence@) =~= spec_evidence(signals));
    r
}

/// Classify with input validation: sessions with fewer than
/// [`MIN_TURNS_FOR_CLASSIFICATION`] turns are rejected.
pub fn classify_with_validation(signals: Signals) -> (r: Result<PatternResult, ClassifyError>)
    ensures
        signals.turn_count < MIN_TURNS_FOR_CLASSIFICATION ==> r == Err::<PatternResult, ClassifyError>(
            ClassifyError::InsufficientData {
                turn_count: signals.turn_count,
                minimum: MIN_TURNS_FOR_CLASSIFICATION,
            },
        ),
        signals.turn_count >= MIN_TURNS_FOR_CLASSIFICATION ==> (r matches Ok(res) && classified_as(
            res,
            signals,
        )),
{
    if signals.turn_count < MIN_TURNS_FOR_CLASSIFICATION {
        return Err(
            ClassifyError::InsufficientData {
                turn_count: signals.turn_count,
                minimum: MIN_TURNS_FOR_CLASSIFICATION,
            },
        );
    }
    Ok(classify(signals))
}

impl ClassifyError {
    /// Human-readable description of the error.
    pub fn message(&self) -> (r: String)
        ensures
            r@ == self.spec_message(),
    {
        match self {
            ClassifyError::InsufficientData { turn_count, minimum } => {
                let mut s = String::from_str("Insufficient data: session has ");
                let n = decimal_string(*turn_count as u64);
                s.append(n.as_str());
                s.append(" assistant turn(s), minimum is ");
                let m = decimal_string(*minimum as u64);
                s.append(m.as_str());
                s.append(".");
                s
            },
        }
    }

    /// The text that [`ClassifyError::message`] returns.
    pub open spec fn spec_message(self) -> Seq<char> {
        match self {
            ClassifyError::InsufficientData { turn_count, minimum } => "Insufficient data: session has "@
                + crate::text::spec_decimal(turn_count as nat)
                + " assistant turn(s), minimum is "@ + crate::text::spec_decimal(minimum as nat)
                + "."@,
        }
    }
}

// ============================================================
// Pattern checkers
// ============================================================
fn check_cold_session(s: &Signals) -> (r: Option<PatternResult>)
    ensures
        cold_warn(*s) ==> (r matches Some(res) && classified_as(res, *s)),
        !cold_warn(*s) ==> r is None,
{
    let alert = Ratio::percent(COLD_SESSION_CACHE_HIT_ALERT_PCT);
    let warn = Ratio::percent(COLD_SESSION_CACHE_HIT_WARN_PCT);
    if s.cache_hit_rate.less_than(&alert) {
        proof {
            assert(cold_warn(*s)) by (nonlinear_arith)
                requires
                    cold_alert(*s),
            ;
        }
        let mut ev = Vec::new();
        ev.push(below("cache_hit_rate", s.cache_hit_rate, alert));
        let r = build_result(Pattern::ColdSession, Severity::Alert, *s, ev);
        assert(evidence_view(r.evidence@) =~= spec_evidence(*s));
        Some(r)
    } else if s.cache_hit_rate.less_than(&warn) {
        let mut ev = Vec::new();
        ev.push(below("cache_hit_rate", s.cache_hit_rate, warn));
        let r = build_result(Pattern::ColdSession, Severity::Warn, *s, ev);
        assert(evidence_view(r.evidence@) =~= spec_evidence(*s));
        Some(r)
    } else {
        None
    }
}

fn check_correction_spiral(s: &Signals) -> (r: Option<PatternResult>)
    requires
        !cold_warn(*s),
    ensures
        spiral(*s) ==> (r matches Some(res) && classified_as(res, *s)),
        !spiral(*s) ==> r is None,
{
    let edit_alert = s.repeated_edit_peak >= CORRECTION_SPIRAL_EDIT_PEAK_ALERT;
    let ratio_alert = Ratio::percent(CORRECTION_SPIRAL_OUTPUT_RATIO_ALERT_PCT).less_than(
        &s.output_token_ratio,
    );
    let edit_warn = s.repeated_edit_peak >= CORRECTION_SPIRAL_EDIT_PEAK_WARN;
    let ratio_warn = Ratio::percent(CORRECTION_SPIRAL_OUTPUT_RATIO_WARN_PCT).less_than(
        &s.output_token_ratio,
    );
    if edit_warn && ratio_warn && (edit_alert || ratio_alert) {
        let edit_t = if edit_alert {
            CORRECTION_SPIRAL_EDIT_PEAK_ALERT
        } else {
            CORRECTION_SPIRAL_EDIT_PEAK_WARN
        };
        let ratio_t = if ratio_alert {
            CORRECTION_SPIRAL_OUTPUT_RATIO_ALERT_PCT
        } else {
            CORRECTION_SPIRAL_OUTPUT_RATIO_WARN_PCT
        };
        let mut ev = Vec::new();
        ev.push(
            above(
                "repeated_edit_peak",
                Ratio::whole(s.repeated_edit_peak as u64),
                Ratio::whole(edit_t as u64),
            ),
        );
        ev.push(above("output_token_ratio", s.output_token_ratio, Ratio::percent(ratio_t)));
        let r = build_result(Pattern::CorrectionSpiral, Severity::Alert, *s, ev);
        assert(evidence_view(r.evidence@) =~= spec_evidence(*s));
        Some(r)
    } else if edit_warn && ratio_warn {
        let mut ev = Vec::new();
        ev.push(
            above(
                "repeated_edit_peak",
                Ratio::whole(s.repeated_edit_peak as u64),
                Ratio::whole(CORRECTION_SPIRAL_EDIT_PEAK_WARN as u64),
            ),
        );
        ev.push(
            above(
                "output_token_ratio",
                s.output_token_ratio,
                Ratio::percent(CORRECTION_SPIRAL_OUTPUT_RATIO_WARN_PCT),
            ),
        );
        let r = build_result(Pattern::CorrectionSpiral, Severity::Warn, *s, ev);
        assert(evidence_view(r.evidence@) =~= spec_evidence(*s));
        Some(r)
    } else {
        None
    }
}

fn check_subagent_swarm(s: &Signals) -> (r: Option<PatternResult>)
    requires
        !cold_warn(*s),
        !spiral(*s),
    ensures
        s.subagent_count > SUBAGENT_SWARM_COUNT_WARN ==> (r matches Some(res) && classified_as(
            res,
            *s,
        )),
        s.subagent_count <= SUBAGENT_SWARM_COUNT_WARN ==> r is None,
{
    if s.subagent_count > SUBAGENT_SWARM_COUNT_ALERT {
        let mut ev = Vec::new();
        ev.push(
            above(
                "subagent_count",
                Ratio::whole(s.subagent_count as u64),
                Ratio::whole(SUBAGENT_SWARM_COUNT_ALERT as u64),
            ),
        );
        let r = build_result(Pattern::SubagentSwarm, Severity::Alert, *s, ev);
        assert(evidence_view(r.evidence@) =~= spec_evidence(*s));
        Some(r)
    } else if s.subagent_count > SUBAGENT_SWARM_COUNT_WARN {
        let mut ev = Vec::new();
        ev.push(
            above(
                "subagent_count",
                Ratio::whole(s.subagent_count as u64),
                Ratio::whole(SUBAGENT_SWARM_COUNT_WARN as u64),
            ),
        );
        let r = build_result(Pattern::SubagentSwarm, Severity::Warn, *s, ev);
        assert(evidence_view(r.evidence@) =~= spec_evidence(*s));
        Some(r)
    } else {
        None
    }
}

fn check_kitchen_sink(s: &Signals) -> (r: Option<PatternResult>)
    requires
        !cold_warn(*s),
        !spiral(*s),
        s.subagent_count <= SUBAGENT_SWARM_COUNT_WARN,
    ensures
        s.topic_shift_count > KITCHEN_SINK_TOPIC_SHIFT_INFO ==> (r matches Some(res)
            && classified_as(res, *s)),
        s.topic_shift_count <= KITCHEN_SINK_TOPIC_SHIFT_INFO ==> r is None,
{
    if s.topic_shift_count > KITCHEN_SINK_TOPIC_SHIFT_WARN {
        let ev = kitchen_sink_evidence(s, KITCHEN_SINK_TOPIC_SHIFT_WARN);
        let r = build_result(Pattern::KitchenSink, Severity::Warn, *s, ev);
        Some(r)
    } else if s.topic_shift_count > KITCHEN_SINK_TOPIC_SHIFT_INFO {
        let ev = kitchen_sink_evidence(s, KITCHEN_SINK_TOPIC_SHIFT_INFO);
        let r = build_result(Pattern::KitchenSink, Severity::Info, *s, ev);
        Some(r)
    } else {
        None
    }
}

fn check_marathon(s: &Signals) -> (r: Option<PatternResult>)
    requires
        !cold_warn(*s),
        !spiral(*s),
        s.subagent_count <= SUBAGENT_SWARM_COUNT_WARN,
        s.topic_shift_count <= KITCHEN_SINK_TOPIC_SHIFT_INFO,
    ensures
        marathon(*s) ==> (r matches Some(res) && classified_as(res, *s)),
        !marathon(*s) ==> r is None,
{
    let cond_turns = s.turn_count >= MARATHON_TURN_COUNT;
    let cond_duration = match s.duration_minutes {
        Some(d) => d >= MARATHON_DURATION_MIN,
        None => false,
    };
    let cache_t = Ratio::percent(MARATHON_CACHE_HIT_PCT);
    let cond_cache = !s.cache_hit_rate.less_than(&cache_t);
    let mut met: u32 = 0;
    if cond_turns {
        met = met + 1;
    }
    if cond_duration {
        met = met + 1;
    }
    if cond_cache {
        met = met + 1;
    }
    if met >= 2 {
        let mut ev = Vec::new();
        if cond_turns {
            ev.push(
                above(
                    "turn_count",
                    Ratio::whole(s.turn_count as u64),
                    Ratio::whole(MARATHON_TURN_COUNT as u64),
                ),
            );
        }
        if cond_duration {
            let d = match s.duration_minutes {
                Some(d) => d,
                None => 0,
            };
            ev.push(
                above(
                    "duration_minutes",
                    Ratio::whole(d as u64),
                    Ratio::whole(MARATHON_DURATION_MIN as u64),
                ),
            );
        }
        if cond_cache {
            ev.push(above("cache_hit_rate", s.cache_hit_rate, cache_t));
        }
        let r = build_result(Pattern::Marathon, Severity::Info, *s, ev);
        assert(evidence_view(r.evidence@) =~= spec_evidence(*s));
        Some(r)
    } else {
        None
    }
}

fn check_observer(s: &Signals) -> (r: Option<PatternResult>)
    requires
        !cold_warn(*s),
        !spiral(*s),
        s.subagent_count <= SUBAGENT_SWARM_COUNT_WARN,
        s.topic_shift_count <= KITCHEN_SINK_TOPIC_SHIFT_INFO,
        !marathon(*s),
    ensures
        observer(*s) ==> (r matches Some(res) && classified_as(res, *s)),
        !observer(*s) ==> r is None,
{
    if s.turn_count < OBSERVER_MAX_TURNS && s.repeated_edit_peak <= OBSERVER_MAX_EDIT_PEAK {
        let mut ev = Vec::new();
        ev.push(
            below(
                "turn_count",
                Ratio::whole(s.turn_count as u64),
                Ratio::whole(OBSERVER_MAX_TURNS as u64),
            ),
        );
        ev.push(
            below(
                "repeated_edit_peak",
                Ratio::whole(s.repeated_edit_peak as u64),
                Ratio::whole(OBSERVER_MAX_EDIT_PEAK as u64),
            ),
        );
        let r = build_result(Pattern::Observer, Severity::Info, *s, ev);
        assert(evidence_view(r.evidence@) =~= spec_evidence(*s));
        Some(r)
    } else {
        None
    }
}

fn build_result(
    pattern: Pattern,
    severity: Severity,
    signals: Signals,
    evidence: Vec<Evidence>,
) -> (r: PatternResult)
    ensures
        r.pattern == pattern,
        r.severity == severity,
        r.signals == signals,
        r.evidence@ == evidence@,
{
    PatternResult { pattern, signals, severity, evidence }
}

fn above(metric: &str, value: Ratio, threshold: Ratio) -> (e: Evidence)
    ensures
        e@ == ev(metric@, value, threshold),
{
    Evidence {
        metric: String::from_str(metric),
        value,
        threshold,
        direction: direction_for(value, threshold),
    }
}

fn below(metric: &str, value: Ratio, threshold: Ratio) -> (e: Evidence)
    ensures
        e@ == ev(metric@, value, threshold),
{
    Evidence {
        metric: String::from_str(metric),
        value,
        threshold,
        direction: direction_for(value, threshold),
    }
}

fn kitchen_sink_evidence(s: &Signals, topic_shift_threshold: u32) -> (r: Vec<Evidence>)
    ensures
        evidence_view(r@) == kitchen_sink_ev(*s, topic_shift_threshold),
{
    let mut evidence = Vec::new();
    evidence.push(
        above(
            "topic_shift_count",
            Ratio::whole(s.topic_shift_count as u64),
            Ratio::whole(topic_shift_threshold as u64),
        ),
    );
    if s.repeated_edit_peak >= 2 {
        evidence.push(
            above("repeated_edit_peak", Ratio::whole(s.repeated_edit_peak as u64), Ratio::whole(2)),
        );
    }
    assert(evidence_view(evidence@) =~= kitchen_sink_ev(*s, topic_shift_threshold));
    evidence
}

fn direction_for(value: Ratio, threshold: Ratio) -> (d: Direction)
    ensures
        d == direction_of(value, threshold),
{
    if value.within_epsilon(&threshold) {
        Direction::Equal
    } else if threshold.less_than(&value) {
        Direction::Above
    } else {
        Direction::Below
    }
}

// ============================================================
// Laws
// ============================================================
/// A session is classified `Normal` exactly when its evidence list is empty,
/// and a `Normal` session is always reported at `Info` severity.
pub proof fn lemma_normal_iff_no_evidence(s: Signals)
    ensures
        (spec_pattern(s) == Pattern::Normal) == (spec_evidence(s).len() == 0),
        spec_pattern(s) == Pattern::Normal ==> spec_severity(s) == Severity::Info,
{
}

/// A cold session is reported as `ColdSession` whatever its other signals are.
pub proof fn lemma_cold_session_has_priority(s: Signals)
    requires
        cold_warn(s),
    ensures
        spec_pattern(s) == Pattern::ColdSession,
{
}

/// Lowering the cache hit rate of a cold session never lowers its severity:
/// below the alert threshold the severity is `Alert`, otherwise `Warn`.
pub proof fn lemma_cold_severity(s: Signals)
    requires
        cold_warn(s),
    ensures
        cold_alert(s) ==> spec_severity(s) == Severity::Alert,
        !cold_alert(s) ==> spec_severity(s) == Severity::Warn,
{
}

/// Every piece of evidence names its observed value and threshold and lies on
/// the side of the threshold that its direction states.
pub proof fn lemma_evidence_directions(s: Signals)
    ensures
        forall|i: int|
            0 <= i < spec_evidence(s).len() ==> (#[trigger] spec_evidence(s)[i]).3 == direction_of(
                spec_evidence(s)[i].1,
                spec_evidence(s)[i].2,
            ),
{
}

/// The value of the signal named `metric`, where `s` has such a signal.
pub open spec fn signal_value(s: Signals, metric: Seq<char>) -> Option<Ratio> {
    if metric == "cache_hit_rate"@ {
        Some(s.cache_hit_rate)
    } else if metric == "output_token_ratio"@ {
        Some(s.output_token_ratio)
    } else if metric == "subagent_count"@ {
        Some(whole(s.subagent_count))
    } else if metric == "repeated_edit_peak"@ {
        Some(whole(s.repeated_edit_peak))
    } else if metric == "turn_count"@ {
        Some(whole(s.turn_count))
    } else if metric == "topic_shift_count"@ {
        Some(whole(s.topic_shift_count))
    } else if metric == "duration_minutes"@ {
        match s.duration_minutes {
            Some(d) => Some(whole(d)),
            None => None,
        }
    } else {
        None
    }
}

/// Every piece of evidence names a signal of the session and reports that
/// signal's value as its observed value.
pub proof fn lemma_evidence_names_its_signal(s: Signals)
    ensures
        forall|i: int|
            0 <= i < spec_evidence(s).len() ==> signal_value(s, (#[trigger] spec_evidence(s)[i]).0)
                == Some(spec_evidence(s)[i].1),
{
    reveal_strlit("cache_hit_rate");
    reveal_strlit("output_token_ratio");
    reveal_strlit("subagent_count");
    reveal_strlit("repeated_edit_peak");
    reveal_strlit("turn_count");
    reveal_strlit("topic_shift_count");
    reveal_strlit("duration_minutes");
    let names = seq![
        "cache_hit_rate"@,
        "output_token_ratio"@,
        "subagent_count"@,
        "repeated_edit_peak"@,
        "turn_count"@,
        "topic_shift_count"@,
        "duration_minutes"@,
    ];
    assert(names[0].len() == 14 && names[1].len() == 18 && names[2].len() == 14);
    assert(names[3].len() == 18 && names[4].len() == 10 && names[5].len() == 17);
    assert(names[6].len() == 16);
    assert(names[0] != names[2]) by {
        assert(names[0][0] != names[2][0]);
    }
    assert(names[1] != names[3]) by {
        assert(names[1][0] != names[3][0]);
    }
    let e = spec_evidence(s);
    assert forall|i: int| 0 <= i < e.len() implies signal_value(s, (#[trigger] e[i]).0) == Some(
        e[i].1,
    ) by {
        if !cold_warn(s) && !spiral(s) && !(s.subagent_count > SUBAGENT_SWARM_COUNT_WARN) && !(
        s.topic_shift_count > KITCHEN_SINK_TOPIC_SHIFT_INFO) && marathon(s) {
            let a: Seq<(Seq<char>, Ratio, Ratio, Direction)> = if marathon_turns(s) {
                seq![ev("turn_count"@, whole(s.turn_count), whole(MARATHON_TURN_COUNT))]
            } else {
                seq![]
            };
            let b = if marathon_duration(s) {
                a.push(
                    ev(
                        "duration_minutes"@,
                        whole(s.duration_minutes.unwrap()),
                        whole(MARATHON_DURATION_MIN),
                    ),
                )
            } else {
                a
            };
            assert(forall|j: int| 0 <= j < a.len() ==> signal_value(s, #[trigger] a[j].0) == Some(a[j].1));
            assert(forall|j: int| 0 <= j < b.len() ==> signal_value(s, #[trigger] b[j].0) == Some(b[j].1));
        }
    }
}

/// A session is reported as a marathon only when at least two of its three
/// conditions hold: at least 100 turns, at least 120 minutes, a cache hit
/// rate of at least 70%.
pub proof fn lemma_marathon_needs_two_conditions(s: Signals, r: PatternResult)
    requires
        classified_as(r, s),
        r.pattern == Pattern::Marathon,
    ensures
        (if s.turn_count >= 100 {
            1int
        } else {
            0int
        }) + (if s.duration_minutes matches Some(d) && d >= 120 {
            1int
        } else {
            0int
        }) + (if s.cache_hit_rate.den > 0 && s.cache_hit_rate.num * 100 >= 70
            * s.cache_hit_rate.den {
            1int
        } else {
            0int
        }) >= 2,
{
}

} // verus!
