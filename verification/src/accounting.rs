//! What the counts of a parsed session add up to.
use vstd::prelude::*;

use crate::analyzer::{is_breakdown_of, model_entry_of, session_total, ModelTokens, TokenBreakdown};
use crate::json::JsonValue;
use crate::detector::recovered_sum;
use crate::parser::{
    add_model, compression_at, compressions_upto, dedup_insert, find_id, find_key,
    add_tool, add_tools, spec_tool_stats, tool_key, ToolStatView,
    fields_fit, lemma_find_id_bounds, lemma_find_key_bounds, lemma_token_sum_prefix, model_key, parsed_from,
    scan, spec_compressions, spec_models, token_sum, usage_field, ModelView, ScanState,
};
use crate::sort::{ordered_by_key, views, SortKey};
use crate::types::CompressionEvent;
use crate::types::{ParseResult, TurnView};
use vstd::seq_lib::{to_multiset_build, to_multiset_contains, to_multiset_len, to_multiset_remove};

verus! {

// ============================================================
// Sums over sequences
// ============================================================
/// `f` summed over the elements of `s`.
pub open spec fn sum_of<A>(s: Seq<A>, f: spec_fn(A) -> nat) -> nat
    decreases s.len(),
{
    if s.len() == 0 {
        0
    } else {
        sum_of(s.drop_last(), f) + f(s.last())
    }
}

/// Removing element `i` takes `f(s[i])` off the sum.
pub proof fn lemma_sum_remove<A>(s: Seq<A>, f: spec_fn(A) -> nat, i: int)
    requires
        0 <= i < s.len(),
    ensures
        sum_of(s, f) == sum_of(s.remove(i), f) + f(s[i]),
    decreases s.len(),
{
    if i == s.len() - 1 {
        assert(s.remove(i) =~= s.drop_last());
    } else {
        lemma_sum_remove(s.drop_last(), f, i);
        assert(s.remove(i).drop_last() =~= s.drop_last().remove(i));
        assert(s.remove(i).last() == s.last());
    }
}

/// Sums do not depend on the order of the elements.
pub proof fn lemma_sum_perm<A>(a: Seq<A>, b: Seq<A>, f: spec_fn(A) -> nat)
    requires
        a.to_multiset() == b.to_multiset(),
    ensures
        sum_of(a, f) == sum_of(b, f),
    decreases a.len(),
{
    broadcast use vstd::multiset::group_multiset_axioms;

    to_multiset_len(a);
    to_multiset_len(b);
    if a.len() == 0 {
        assert(b.len() == 0);
    } else {
        let x = a.last();
        let rest = a.drop_last();
        assert(rest.push(x) =~= a);
        to_multiset_build(rest, x);
        to_multiset_contains(b, x);
        assert(b.to_multiset().count(x) > 0);
        assert(b.contains(x));
        let i = choose|i: int| 0 <= i < b.len() && b[i] == x;
        to_multiset_remove(b, i);
        assert(b.remove(i).to_multiset() =~= rest.to_multiset());
        lemma_sum_perm(rest, b.remove(i), f);
        lemma_sum_remove(b, f, i);
    }
}

// ============================================================
// Per-model totals
// ============================================================
/// Field `k` of a per-model aggregate: turns (0), then input, output,
/// cache-write and cache-read tokens (1 to 4).
pub open spec fn model_field(m: ModelView, k: int) -> nat {
    if k == 0 {
        m.1 as nat
    } else if k == 1 {
        m.2 as nat
    } else if k == 2 {
        m.3 as nat
    } else if k == 3 {
        m.4 as nat
    } else {
        m.5 as nat
    }
}

/// Field `k` of a per-model aggregate, as a function.
pub open spec fn field_fn(k: int) -> spec_fn(ModelView) -> nat {
    |m: ModelView| model_field(m, k)
}

/// The session total that field `k` of the per-model aggregates adds up
/// to: the number of turns, or token count `k - 1`.
pub open spec fn turn_total(l: Seq<TurnView>, k: int) -> nat {
    if k == 0 {
        l.len()
    } else {
        token_sum(l, k - 1)
    }
}

/// Field `k` of an update that adds a turn.
proof fn lemma_add_model_field(acc: Seq<ModelView>, t: TurnView, l: Seq<TurnView>, k: int)
    requires
        0 <= k <= 4,
        forall|j: int|
            0 <= j < acc.len() ==> model_field(#[trigger] acc[j], k) <= turn_total(l, k),
        turn_total(l.push(t), k) <= u64::MAX,
    ensures
        sum_of(add_model(acc, t), field_fn(k)) == sum_of(acc, field_fn(k)) + (turn_total(
            l.push(t),
            k,
        ) - turn_total(l, k)),
        forall|j: int|
            0 <= j < add_model(acc, t).len() ==> model_field(#[trigger] add_model(acc, t)[j], k)
                <= turn_total(l.push(t), k),
{
    let f = field_fn(k);
    assert(l.push(t).drop_last() =~= l);
    assert(l.push(t).last() == t);
    let idx = find_key(acc, model_key(), t.1);
    lemma_find_key_bounds(acc, model_key(), t.1);
    if idx >= 0 {
        let e = acc[idx];
        let na = add_model(acc, t);
        assert(na == acc.update(
            idx,
            (
                e.0,
                (e.1 + 1) as u64,
                (e.2 + t.2.input_tokens) as u64,
                (e.3 + t.2.output_tokens) as u64,
                (e.4 + t.2.cache_creation_input_tokens) as u64,
                (e.5 + t.2.cache_read_input_tokens) as u64,
            ),
        ));
        assert(model_field(e, k) <= turn_total(l, k));
        assert(model_field(na[idx], k) == model_field(e, k) + (turn_total(l.push(t), k)
            - turn_total(l, k)));
        lemma_sum_remove(acc, f, idx);
        lemma_sum_remove(na, f, idx);
        assert(na.remove(idx) =~= acc.remove(idx));
        assert forall|j: int| 0 <= j < na.len() implies model_field(#[trigger] na[j], k)
            <= turn_total(l.push(t), k) by {
            if j != idx {
                assert(na[j] == acc[j]);
            }
        }
    } else {
        let na = add_model(acc, t);
        assert(na.drop_last() =~= acc);
    }
}

/// Field `k` of the per-model aggregates of the turns adds up to the
/// session total, and bounds each aggregate.
proof fn lemma_models_field_sum(l: Seq<TurnView>, k: int)
    requires
        0 <= k <= 4,
        turn_total(l, k) <= u64::MAX,
    ensures
        sum_of(spec_models(l), field_fn(k)) == turn_total(l, k),
        forall|j: int|
            0 <= j < spec_models(l).len() ==> model_field(#[trigger] spec_models(l)[j], k)
                <= turn_total(l, k),
    decreases l.len(),
{
    if l.len() == 0 {
        assert(spec_models(l) =~= Seq::<ModelView>::empty());
    } else {
        let pre = l.drop_last();
        assert(pre.push(l.last()) =~= l);
        if k > 0 {
            lemma_token_sum_prefix(l, k - 1, l.len() - 1);
            assert(l.take(l.len() - 1) =~= pre);
        }
        lemma_models_field_sum(pre, k);
        lemma_add_model_field(spec_models(pre), l.last(), pre, k);
    }
}

/// The field sums of a parsed session's per-model usage.
pub open spec fn model_usage_sum(p: ParseResult, k: int) -> nat {
    sum_of(views(p.model_usage@), field_fn(k))
}

/// In a parsed session the per-model usage adds up to the session: the
/// models' turn counts to the number of turns, and their input, output,
/// cache-write and cache-read tokens to the session's totals.
pub proof fn lemma_model_usage_adds_up(
    p: ParseResult,
    path: Seq<char>,
    records: Seq<Option<JsonValue>>,
)
    requires
        parsed_from(p, path, records),
    ensures
        model_usage_sum(p, 0) == p.total_turns,
        model_usage_sum(p, 1) == p.total_input_tokens,
        model_usage_sum(p, 2) == p.total_output_tokens,
        model_usage_sum(p, 3) == p.total_cache_creation_tokens,
        model_usage_sum(p, 4) == p.total_cache_read_tokens,
{
    let l = scan(records).0;
    lemma_model_field_matches(p, l, 0);
    lemma_model_field_matches(p, l, 1);
    lemma_model_field_matches(p, l, 2);
    lemma_model_field_matches(p, l, 3);
    lemma_model_field_matches(p, l, 4);
}

proof fn lemma_model_field_matches(p: ParseResult, l: Seq<TurnView>, k: int)
    requires
        0 <= k <= 4,
        turn_total(l, k) <= u64::MAX,
        views(p.model_usage@).to_multiset() == spec_models(l).to_multiset(),
    ensures
        model_usage_sum(p, k) == turn_total(l, k),
{
    lemma_models_field_sum(l, k);
    lemma_sum_perm(views(p.model_usage@), spec_models(l), field_fn(k));
}

// ============================================================
// One usage row per model
// ============================================================
/// The turns of `l` answered by model `m`, in order.
pub open spec fn model_turns(l: Seq<TurnView>, m: Seq<char>) -> Seq<TurnView>
    decreases l.len(),
{
    if l.len() == 0 {
        seq![]
    } else {
        let r = model_turns(l.drop_last(), m);
        if l.last().1 == m {
            r.push(l.last())
        } else {
            r
        }
    }
}

/// The usage row of model `m` over the turns `l`: its number of turns and
/// each token count summed over them.
pub open spec fn model_row(l: Seq<TurnView>, m: Seq<char>) -> ModelView {
    let ts = model_turns(l, m);
    (
        m,
        ts.len() as u64,
        token_sum(ts, 0) as u64,
        token_sum(ts, 1) as u64,
        token_sum(ts, 2) as u64,
        token_sum(ts, 3) as u64,
    )
}

/// The rows `rows` are the usage rows of the turns `l`: one row per model,
/// each holding its model's sums, and a row for every model of a turn.
pub open spec fn rows_of_models(rows: Seq<ModelView>, l: Seq<TurnView>) -> bool {
    &&& forall|i: int, j: int|
        0 <= i < j < rows.len() ==> (#[trigger] rows[i]).0 != (#[trigger] rows[j]).0
    &&& forall|i: int| 0 <= i < rows.len() ==> #[trigger] rows[i] == model_row(l, rows[i].0)
    &&& forall|t: int|
        0 <= t < l.len() ==> exists|i: int| 0 <= i < rows.len() && #[trigger] rows[i].0 == (
        #[trigger] l[t]).1
}

proof fn lemma_find_key_none<A>(s: Seq<A>, key: spec_fn(A) -> Seq<char>, x: Seq<char>)
    requires
        find_key(s, key, x) == -1,
    ensures
        forall|k: int| 0 <= k < s.len() ==> key(#[trigger] s[k]) != x,
    decreases s.len(),
{
    if s.len() > 0 {
        lemma_find_key_none(s.drop_last(), key, x);
        assert forall|k: int| 0 <= k < s.len() implies key(#[trigger] s[k]) != x by {
            if k < s.len() - 1 {
                assert(s[k] == s.drop_last()[k]);
            }
        }
    }
}

proof fn lemma_model_turns_absent(l: Seq<TurnView>, m: Seq<char>)
    requires
        forall|t: int| 0 <= t < l.len() ==> (#[trigger] l[t]).1 != m,
    ensures
        model_turns(l, m) == Seq::<TurnView>::empty(),
    decreases l.len(),
{
    if l.len() > 0 {
        lemma_model_turns_absent(l.drop_last(), m);
    }
}

proof fn lemma_model_turns_bounded(l: Seq<TurnView>, m: Seq<char>, k: int)
    ensures
        model_turns(l, m).len() <= l.len(),
        token_sum(model_turns(l, m), k) <= token_sum(l, k),
    decreases l.len(),
{
    if l.len() > 0 {
        lemma_model_turns_bounded(l.drop_last(), m, k);
        let r = model_turns(l.drop_last(), m);
        if l.last().1 == m {
            assert(r.push(l.last()).drop_last() =~= r);
        }
    }
}

proof fn lemma_fields_fit_prefix(l: Seq<TurnView>)
    requires
        l.len() > 0,
        fields_fit(l),
    ensures
        fields_fit(l.drop_last()),
{
    assert(l.take(l.len() - 1) =~= l.drop_last());
    lemma_token_sum_prefix(l, 0, l.len() - 1);
    lemma_token_sum_prefix(l, 1, l.len() - 1);
    lemma_token_sum_prefix(l, 2, l.len() - 1);
    lemma_token_sum_prefix(l, 3, l.len() - 1);
}

/// The per-model aggregates of the turns are their usage rows: each model
/// has exactly one row, holding its number of turns and its summed token
/// counts, and every model of a turn has a row.
pub proof fn lemma_models_are_rows(l: Seq<TurnView>)
    requires
        fields_fit(l),
        l.len() <= u64::MAX,
    ensures
        rows_of_models(spec_models(l), l),
    decreases l.len(),
{
    if l.len() > 0 {
        let pre = l.drop_last();
        let t = l.last();
        lemma_fields_fit_prefix(l);
        lemma_models_are_rows(pre);
        let a = spec_models(pre);
        let r = spec_models(l);
        assert(r == add_model(a, t));
        let idx = find_key(a, model_key(), t.1);
        lemma_find_key_bounds(a, model_key(), t.1);
        // Rows of models other than t's keep their turns.
        assert forall|m: Seq<char>| m != t.1 implies #[trigger] model_turns(l, m) == model_turns(
            pre,
            m,
        ) by {}
        assert(model_turns(l, t.1) == model_turns(pre, t.1).push(t));
        let tp = model_turns(pre, t.1);
        assert(tp.push(t).drop_last() =~= tp);
        lemma_model_turns_bounded(l, t.1, 0);
        lemma_model_turns_bounded(l, t.1, 1);
        lemma_model_turns_bounded(l, t.1, 2);
        lemma_model_turns_bounded(l, t.1, 3);
        if idx >= 0 {
            assert(a[idx] == model_row(pre, t.1));
            assert(r[idx] == model_row(l, t.1));
            assert forall|i: int| 0 <= i < r.len() implies #[trigger] r[i] == model_row(
                l,
                r[i].0,
            ) by {
                if i != idx {
                    assert(r[i] == a[i]);
                    assert(a[i].0 != t.1);
                    assert(model_turns(l, a[i].0) == model_turns(pre, a[i].0));
                }
            }
            assert forall|x: int, y: int| 0 <= x < y < r.len() implies (#[trigger] r[x]).0 != (
            #[trigger] r[y]).0 by {
                assert(r[x].0 == a[x].0 && r[y].0 == a[y].0);
            }
            assert forall|u: int| 0 <= u < l.len() implies exists|i: int|
                0 <= i < r.len() && #[trigger] r[i].0 == (#[trigger] l[u]).1 by {
                if u < pre.len() {
                    assert(l[u] == pre[u]);
                    let i = choose|i: int| 0 <= i < a.len() && #[trigger] a[i].0 == pre[u].1;
                    assert(r[i].0 == a[i].0);
                } else {
                    assert(r[idx].0 == l[u].1);
                }
            }
        } else {
            lemma_find_key_none(a, model_key(), t.1);
            assert forall|u: int| 0 <= u < pre.len() implies (#[trigger] pre[u]).1 != t.1 by {
                if pre[u].1 == t.1 {
                    let i = choose|i: int| 0 <= i < a.len() && #[trigger] a[i].0 == pre[u].1;
                    assert((model_key())(a[i]) != t.1);
                }
            }
            lemma_model_turns_absent(pre, t.1);
            assert(model_turns(l, t.1) =~= seq![t]);
            assert(r == a.push(model_row(l, t.1)));
            assert forall|i: int| 0 <= i < r.len() implies #[trigger] r[i] == model_row(
                l,
                r[i].0,
            ) by {
                if i < a.len() {
                    assert(r[i] == a[i]);
                    assert((model_key())(a[i]) != t.1);
                    assert(model_turns(l, a[i].0) == model_turns(pre, a[i].0));
                }
            }
            assert forall|x: int, y: int| 0 <= x < y < r.len() implies (#[trigger] r[x]).0 != (
            #[trigger] r[y]).0 by {
                if y == a.len() {
                    assert((model_key())(a[x]) != t.1);
                } else {
                    assert(r[x] == a[x] && r[y] == a[y]);
                }
            }
            assert forall|u: int| 0 <= u < l.len() implies exists|i: int|
                0 <= i < r.len() && #[trigger] r[i].0 == (#[trigger] l[u]).1 by {
                if u < pre.len() {
                    assert(l[u] == pre[u]);
                    let i = choose|i: int| 0 <= i < a.len() && #[trigger] a[i].0 == pre[u].1;
                    assert(r[i].0 == a[i].0);
                } else {
                    assert(r[a.len() as int].0 == l[u].1);
                }
            }
        }
    }
}

proof fn lemma_in_rows(q: Seq<ModelView>, rows: Seq<ModelView>, x: int)
    requires
        q.to_multiset() == rows.to_multiset(),
        0 <= x < q.len(),
    ensures
        exists|i: int| 0 <= i < rows.len() && rows[i] == q[x],
{
    to_multiset_contains(q, q[x]);
    assert(q.contains(q[x]));
    to_multiset_contains(rows, q[x]);
}

proof fn lemma_unique_row(q: Seq<ModelView>, rows: Seq<ModelView>, x: int, y: int)
    requires
        q.to_multiset() == rows.to_multiset(),
        forall|i: int, j: int|
            0 <= i < j < rows.len() ==> (#[trigger] rows[i]).0 != (#[trigger] rows[j]).0,
        0 <= x < y < q.len(),
    ensures
        q[x].0 != q[y].0,
{
    broadcast use vstd::multiset::group_multiset_axioms;

    lemma_in_rows(q, rows, x);
    lemma_in_rows(q, rows, y);
    if q[x].0 == q[y].0 {
        let i = choose|i: int| 0 <= i < rows.len() && rows[i] == q[x];
        let j = choose|j: int| 0 <= j < rows.len() && rows[j] == q[y];
        assert(i == j) by {
            if i < j {
                assert(rows[i].0 != rows[j].0);
            } else if j < i {
                assert(rows[j].0 != rows[i].0);
            }
        }
        let e = q[x];
        // `e` occurs twice in `q`.
        to_multiset_remove(q, x);
        assert(q.remove(x)[y - 1] == e);
        to_multiset_contains(q.remove(x), e);
        assert(q.remove(x).contains(e));
        // `e` occurs once in `rows`.
        to_multiset_remove(rows, i);
        assert forall|k: int| 0 <= k < rows.remove(i).len() implies #[trigger] rows.remove(i)[k]
            != e by {
            if k < i {
                assert(rows.remove(i)[k] == rows[k]);
                assert(rows[k].0 != rows[i].0);
            } else {
                assert(rows.remove(i)[k] == rows[k + 1]);
                assert(rows[i].0 != rows[k + 1].0);
            }
        }
        to_multiset_contains(rows.remove(i), e);
        assert(q.to_multiset().remove(e).count(e) > 0);
        assert(rows.to_multiset().remove(e).count(e) == 0);
    }
}

/// Whether a turn was answered by `m`, as a count.
pub open spec fn is_model(m: Seq<char>) -> spec_fn(TurnView) -> nat {
    |t: TurnView| if t.1 == m { 1nat } else { 0nat }
}

/// Token count `k` of a turn answered by `m`, zero for other turns.
pub open spec fn model_usage_of(m: Seq<char>, k: int) -> spec_fn(TurnView) -> nat {
    |t: TurnView| if t.1 == m { usage_field(t.2, k) as nat } else { 0nat }
}

proof fn lemma_model_turns_as_sums(l: Seq<TurnView>, m: Seq<char>, k: int)
    ensures
        model_turns(l, m).len() == sum_of(l, is_model(m)),
        token_sum(model_turns(l, m), k) == sum_of(l, model_usage_of(m, k)),
    decreases l.len(),
{
    if l.len() > 0 {
        lemma_model_turns_as_sums(l.drop_last(), m, k);
        let r = model_turns(l.drop_last(), m);
        if l.last().1 == m {
            assert(r.push(l.last()).drop_last() =~= r);
        }
    }
}

proof fn lemma_model_row_perm(a: Seq<TurnView>, b: Seq<TurnView>, m: Seq<char>)
    requires
        a.to_multiset() == b.to_multiset(),
    ensures
        model_row(a, m) == model_row(b, m),
{
    lemma_model_turns_as_sums(a, m, 0);
    lemma_model_turns_as_sums(a, m, 1);
    lemma_model_turns_as_sums(a, m, 2);
    lemma_model_turns_as_sums(a, m, 3);
    lemma_model_turns_as_sums(b, m, 0);
    lemma_model_turns_as_sums(b, m, 1);
    lemma_model_turns_as_sums(b, m, 2);
    lemma_model_turns_as_sums(b, m, 3);
    lemma_sum_perm(a, b, is_model(m));
    lemma_sum_perm(a, b, model_usage_of(m, 0));
    lemma_sum_perm(a, b, model_usage_of(m, 1));
    lemma_sum_perm(a, b, model_usage_of(m, 2));
    lemma_sum_perm(a, b, model_usage_of(m, 3));
}

/// In a parsed session the usage rows are one per model of the returned
/// turns: no two rows name the same model, each row holds its model's
/// number of turns and its summed token counts, and every model that
/// answered a turn has a row.
pub proof fn lemma_model_usage_rows(
    p: ParseResult,
    path: Seq<char>,
    records: Seq<Option<JsonValue>>,
)
    requires
        parsed_from(p, path, records),
    ensures
        rows_of_models(views(p.model_usage@), views(p.assistant_turns@)),
{
    let l = scan(records).0;
    let t = views(p.assistant_turns@);
    let q = views(p.model_usage@);
    let rows = spec_models(l);
    lemma_models_are_rows(l);
    assert forall|i: int, j: int| 0 <= i < j < q.len() implies (#[trigger] q[i]).0 != (
    #[trigger] q[j]).0 by {
        lemma_unique_row(q, rows, i, j);
    }
    assert forall|i: int| 0 <= i < q.len() implies #[trigger] q[i] == model_row(t, q[i].0) by {
        lemma_in_rows(q, rows, i);
        lemma_model_row_perm(l, t, q[i].0);
    }
    assert forall|u: int| 0 <= u < t.len() implies exists|i: int|
        0 <= i < q.len() && #[trigger] q[i].0 == (#[trigger] t[u]).1 by {
        to_multiset_contains(t, t[u]);
        assert(t.contains(t[u]));
        to_multiset_contains(l, t[u]);
        let v = choose|v: int| 0 <= v < l.len() && l[v] == t[u];
        assert(l[v].1 == t[u].1);
        let k = choose|k: int| 0 <= k < rows.len() && #[trigger] rows[k].0 == l[v].1;
        lemma_in_rows(rows, q, k);
        let i = choose|i: int| 0 <= i < q.len() && q[i] == rows[k];
        assert(q[i].0 == t[u].1);
    }
}

// ============================================================
// One usage row per tool
// ============================================================
/// How often `x` occurs in `ns`.
pub open spec fn name_count(ns: Seq<Seq<char>>, x: Seq<char>) -> nat
    decreases ns.len(),
{
    if ns.len() == 0 {
        0
    } else {
        name_count(ns.drop_last(), x) + if ns.last() == x {
            1nat
        } else {
            0nat
        }
    }
}

/// A count held in a `u64`: counts stop at the largest `u64`.
pub open spec fn capped(n: nat) -> u64 {
    if n <= u64::MAX {
        n as u64
    } else {
        u64::MAX
    }
}

/// Invocations of tool `x` in one turn's tools.
pub open spec fn uses_in(tools: Seq<(Seq<char>, Seq<char>, Option<Seq<char>>)>, x: Seq<char>) -> nat
    decreases tools.len(),
{
    if tools.len() == 0 {
        0
    } else {
        uses_in(tools.drop_last(), x) + if tools.last().0 == x {
            1nat
        } else {
            0nat
        }
    }
}

/// Invocations of tool `x` in a turn, as a function.
pub open spec fn uses_of(x: Seq<char>) -> spec_fn(TurnView) -> nat {
    |t: TurnView| uses_in(t.3, x)
}

/// Invocations of tool `x` over the turns `l`.
pub open spec fn tool_uses(l: Seq<TurnView>, x: Seq<char>) -> nat {
    sum_of(l, uses_of(x))
}

/// The rows `rows` are the tool rows of the invocation counts `cnt`: one
/// row per tool name, each with its (capped) count, and a row for every
/// name with a positive count.
pub open spec fn rows_of_tools(rows: Seq<ToolStatView>, cnt: spec_fn(Seq<char>) -> nat) -> bool {
    &&& forall|i: int, j: int|
        0 <= i < j < rows.len() ==> (#[trigger] rows[i]).0 != (#[trigger] rows[j]).0
    &&& forall|i: int| 0 <= i < rows.len() ==> (#[trigger] rows[i]).1 == capped(cnt(rows[i].0))
    &&& forall|x: Seq<char>|
        #[trigger] cnt(x) > 0 ==> exists|i: int| 0 <= i < rows.len() && #[trigger] rows[i].0 == x
}

/// The counts of the names `ns`.
pub open spec fn counts_of(ns: Seq<Seq<char>>) -> spec_fn(Seq<char>) -> nat {
    |x: Seq<char>| name_count(ns, x)
}

proof fn lemma_add_tool_rows(acc: Seq<ToolStatView>, ns: Seq<Seq<char>>, x: Seq<char>)
    requires
        rows_of_tools(acc, counts_of(ns)),
    ensures
        rows_of_tools(add_tool(acc, x), counts_of(ns.push(x))),
{
    let na = add_tool(acc, x);
    let ns2 = ns.push(x);
    assert(ns2.drop_last() =~= ns);
    assert forall|y: Seq<char>| y != x implies #[trigger] name_count(ns2, y) == name_count(ns, y) by {}
    assert(name_count(ns2, x) == name_count(ns, x) + 1);
    let k = find_key(acc, tool_key(), x);
    lemma_find_key_bounds(acc, tool_key(), x);
    if k >= 0 {
        assert(acc[k].0 == x);
        assert forall|i: int| 0 <= i < na.len() implies (#[trigger] na[i]).1 == capped(
            name_count(ns2, na[i].0),
        ) by {
            if i != k {
                assert(na[i] == acc[i]);
                assert(acc[i].0 != x);
            }
        }
        assert forall|i: int, j: int| 0 <= i < j < na.len() implies (#[trigger] na[i]).0 != (
        #[trigger] na[j]).0 by {
            assert(na[i].0 == acc[i].0 && na[j].0 == acc[j].0);
        }
        assert forall|y: Seq<char>| name_count(ns2, y) > 0 implies exists|i: int|
            0 <= i < na.len() && #[trigger] na[i].0 == y by {
            if y == x {
                assert(na[k].0 == x);
            } else {
                assert(name_count(ns, y) > 0);
                assert((counts_of(ns))(y) > 0);
                let i = choose|i: int| 0 <= i < acc.len() && #[trigger] acc[i].0 == y;
                assert(na[i].0 == acc[i].0);
            }
        }
    } else {
        lemma_find_key_none(acc, tool_key(), x);
        assert(name_count(ns, x) == 0) by {
            if name_count(ns, x) > 0 {
                assert((counts_of(ns))(x) > 0);
                let i = choose|i: int| 0 <= i < acc.len() && #[trigger] acc[i].0 == x;
                assert((tool_key())(acc[i]) != x);
            }
        }
        assert(na == acc.push((x, 1u64)));
        assert forall|i: int| 0 <= i < na.len() implies (#[trigger] na[i]).1 == capped(
            name_count(ns2, na[i].0),
        ) by {
            if i < acc.len() {
                assert(na[i] == acc[i]);
                assert((tool_key())(acc[i]) != x);
            }
        }
        assert forall|i: int, j: int| 0 <= i < j < na.len() implies (#[trigger] na[i]).0 != (
        #[trigger] na[j]).0 by {
            if j == acc.len() {
                assert((tool_key())(acc[i]) != x);
            } else {
                assert(na[i] == acc[i] && na[j] == acc[j]);
            }
        }
        assert forall|y: Seq<char>| name_count(ns2, y) > 0 implies exists|i: int|
            0 <= i < na.len() && #[trigger] na[i].0 == y by {
            if y == x {
                assert(na[acc.len() as int].0 == x);
            } else {
                assert((counts_of(ns))(y) > 0);
                let i = choose|i: int| 0 <= i < acc.len() && #[trigger] acc[i].0 == y;
                assert(na[i].0 == acc[i].0);
            }
        }
    }
}

/// The names of a turn's tools.
pub open spec fn names_of(tools: Seq<(Seq<char>, Seq<char>, Option<Seq<char>>)>) -> Seq<Seq<char>> {
    tools.map_values(|t: (Seq<char>, Seq<char>, Option<Seq<char>>)| t.0)
}

proof fn lemma_add_tools_rows(
    acc: Seq<ToolStatView>,
    ns: Seq<Seq<char>>,
    tools: Seq<(Seq<char>, Seq<char>, Option<Seq<char>>)>,
)
    requires
        rows_of_tools(acc, counts_of(ns)),
    ensures
        rows_of_tools(add_tools(acc, tools), counts_of(ns + names_of(tools))),
    decreases tools.len(),
{
    if tools.len() == 0 {
        assert(ns + names_of(tools) =~= ns);
    } else {
        let pre = tools.drop_last();
        lemma_add_tools_rows(acc, ns, pre);
        assert(names_of(tools) =~= names_of(pre).push(tools.last().0));
        assert(ns + names_of(tools) =~= (ns + names_of(pre)).push(tools.last().0));
        lemma_add_tool_rows(add_tools(acc, pre), ns + names_of(pre), tools.last().0);
    }
}

/// The names of all tool invocations of the turns, in order.
pub open spec fn tool_names(l: Seq<TurnView>) -> Seq<Seq<char>>
    decreases l.len(),
{
    if l.len() == 0 {
        seq![]
    } else {
        tool_names(l.drop_last()) + names_of(l.last().3)
    }
}

proof fn lemma_name_count_concat(a: Seq<Seq<char>>, b: Seq<Seq<char>>, x: Seq<char>)
    ensures
        name_count(a + b, x) == name_count(a, x) + name_count(b, x),
    decreases b.len(),
{
    if b.len() == 0 {
        assert(a + b =~= a);
    } else {
        lemma_name_count_concat(a, b.drop_last(), x);
        assert((a + b).drop_last() =~= a + b.drop_last());
    }
}

proof fn lemma_names_of_count(tools: Seq<(Seq<char>, Seq<char>, Option<Seq<char>>)>, x: Seq<char>)
    ensures
        name_count(names_of(tools), x) == uses_in(tools, x),
    decreases tools.len(),
{
    if tools.len() > 0 {
        lemma_names_of_count(tools.drop_last(), x);
        assert(names_of(tools).drop_last() =~= names_of(tools.drop_last()));
    }
}

proof fn lemma_tool_names_count(l: Seq<TurnView>, x: Seq<char>)
    ensures
        name_count(tool_names(l), x) == tool_uses(l, x),
    decreases l.len(),
{
    if l.len() > 0 {
        lemma_tool_names_count(l.drop_last(), x);
        lemma_name_count_concat(tool_names(l.drop_last()), names_of(l.last().3), x);
        lemma_names_of_count(l.last().3, x);
    }
}

/// The per-tool counts of the turns are their tool rows.
proof fn lemma_tool_stats_rows(l: Seq<TurnView>)
    ensures
        rows_of_tools(spec_tool_stats(l), counts_of(tool_names(l))),
    decreases l.len(),
{
    if l.len() == 0 {
        assert(spec_tool_stats(l) =~= Seq::<ToolStatView>::empty());
    } else {
        lemma_tool_stats_rows(l.drop_last());
        lemma_add_tools_rows(spec_tool_stats(l.drop_last()), tool_names(l.drop_last()), l.last().3);
    }
}

proof fn lemma_in_tool_rows(q: Seq<ToolStatView>, rows: Seq<ToolStatView>, x: int)
    requires
        q.to_multiset() == rows.to_multiset(),
        0 <= x < q.len(),
    ensures
        exists|i: int| 0 <= i < rows.len() && rows[i] == q[x],
{
    to_multiset_contains(q, q[x]);
    assert(q.contains(q[x]));
    to_multiset_contains(rows, q[x]);
}

proof fn lemma_unique_tool_row(q: Seq<ToolStatView>, rows: Seq<ToolStatView>, x: int, y: int)
    requires
        q.to_multiset() == rows.to_multiset(),
        forall|i: int, j: int|
            0 <= i < j < rows.len() ==> (#[trigger] rows[i]).0 != (#[trigger] rows[j]).0,
        0 <= x < y < q.len(),
    ensures
        q[x].0 != q[y].0,
{
    broadcast use vstd::multiset::group_multiset_axioms;

    lemma_in_tool_rows(q, rows, x);
    lemma_in_tool_rows(q, rows, y);
    if q[x].0 == q[y].0 {
        let i = choose|i: int| 0 <= i < rows.len() && rows[i] == q[x];
        let j = choose|j: int| 0 <= j < rows.len() && rows[j] == q[y];
        assert(i == j) by {
            if i < j {
                assert(rows[i].0 != rows[j].0);
            } else if j < i {
                assert(rows[j].0 != rows[i].0);
            }
        }
        let e = q[x];
        to_multiset_remove(q, x);
        assert(q.remove(x)[y - 1] == e);
        to_multiset_contains(q.remove(x), e);
        assert(q.remove(x).contains(e));
        to_multiset_remove(rows, i);
        assert forall|k: int| 0 <= k < rows.remove(i).len() implies #[trigger] rows.remove(i)[k]
            != e by {
            if k < i {
                assert(rows.remove(i)[k] == rows[k]);
                assert(rows[k].0 != rows[i].0);
            } else {
                assert(rows.remove(i)[k] == rows[k + 1]);
                assert(rows[i].0 != rows[k + 1].0);
            }
        }
        to_multiset_contains(rows.remove(i), e);
        assert(q.to_multiset().remove(e).count(e) > 0);
        assert(rows.to_multiset().remove(e).count(e) == 0);
    }
}

/// Invocations of each tool over the turns `l`, as a function.
pub open spec fn uses_over(l: Seq<TurnView>) -> spec_fn(Seq<char>) -> nat {
    |x: Seq<char>| tool_uses(l, x)
}

/// In a parsed session the tool usage has one row per tool: no two rows
/// name the same tool, each row counts the tool's invocations over the
/// returned turns (stopping at the largest `u64`), and every invoked tool
/// has a row.
pub proof fn lemma_tool_usage_rows(
    p: ParseResult,
    path: Seq<char>,
    records: Seq<Option<JsonValue>>,
)
    requires
        parsed_from(p, path, records),
    ensures
        rows_of_tools(views(p.tool_usage@), uses_over(views(p.assistant_turns@))),
{
    let l = scan(records).0;
    let t = views(p.assistant_turns@);
    let q = views(p.tool_usage@);
    let rows = spec_tool_stats(l);
    lemma_tool_stats_rows(l);
    assert forall|x: Seq<char>| #[trigger] tool_uses(t, x) == name_count(tool_names(l), x) by {
        lemma_tool_names_count(l, x);
        lemma_sum_perm(t, l, uses_of(x));
    }
    assert forall|i: int, j: int| 0 <= i < j < q.len() implies (#[trigger] q[i]).0 != (
    #[trigger] q[j]).0 by {
        lemma_unique_tool_row(q, rows, i, j);
    }
    assert forall|i: int| 0 <= i < q.len() implies (#[trigger] q[i]).1 == capped(
        (uses_over(t))(q[i].0),
    ) by {
        lemma_in_tool_rows(q, rows, i);
        assert(tool_uses(t, q[i].0) == name_count(tool_names(l), q[i].0));
    }
    assert forall|x: Seq<char>| #[trigger] (uses_over(t))(x) > 0 implies exists|i: int|
        0 <= i < q.len() && #[trigger] q[i].0 == x by {
        assert(tool_uses(t, x) == name_count(tool_names(l), x));
        assert((counts_of(tool_names(l)))(x) > 0);
        let k = choose|k: int| 0 <= k < rows.len() && #[trigger] rows[k].0 == x;
        lemma_in_tool_rows(rows, q, k);
        let i = choose|i: int| 0 <= i < q.len() && q[i] == rows[k];
        assert(q[i].0 == x);
    }
}

// ============================================================
// Model shares add up
// ============================================================
/// The numerators of the models' token shares, summed.
pub open spec fn shares_total(ms: Seq<ModelTokens>) -> nat
    decreases ms.len(),
{
    if ms.len() == 0 {
        0
    } else {
        shares_total(ms.drop_last()) + ms.last().token_share.num as nat
    }
}

/// All tokens of a per-model aggregate, as a function.
pub open spec fn all_tokens_fn() -> spec_fn(ModelView) -> nat {
    |m: ModelView| (m.2 + m.3 + m.4 + m.5) as nat
}

proof fn lemma_all_tokens_sum(s: Seq<ModelView>)
    ensures
        sum_of(s, all_tokens_fn()) == sum_of(s, field_fn(1)) + sum_of(s, field_fn(2)) + sum_of(
            s,
            field_fn(3),
        ) + sum_of(s, field_fn(4)),
    decreases s.len(),
{
    if s.len() > 0 {
        lemma_all_tokens_sum(s.drop_last());
    }
}

proof fn lemma_shares_total_prefix(b: TokenBreakdown, p: ParseResult, n: int)
    requires
        is_breakdown_of(b, p),
        0 <= n <= b.models@.len(),
    ensures
        shares_total(b.models@.take(n)) == sum_of(views(p.model_usage@).take(n), all_tokens_fn()),
    decreases n,
{
    if n > 0 {
        lemma_shares_total_prefix(b, p, n - 1);
        assert(b.models@.take(n).drop_last() =~= b.models@.take(n - 1));
        assert(views(p.model_usage@).take(n).drop_last() =~= views(p.model_usage@).take(n - 1));
        assert(model_entry_of(b.models@[n - 1], p.model_usage@[n - 1], session_total(p)));
    } else {
        assert(b.models@.take(0) =~= Seq::<ModelTokens>::empty());
        assert(views(p.model_usage@).take(0) =~= Seq::<ModelView>::empty());
    }
}

/// In the breakdown of a parsed session the models' token shares add up to
/// the whole: their numerators sum to the session's tokens, their common
/// denominator.
pub proof fn lemma_model_shares_add_up(
    b: TokenBreakdown,
    p: ParseResult,
    path: Seq<char>,
    records: Seq<Option<JsonValue>>,
)
    requires
        is_breakdown_of(b, p),
        parsed_from(p, path, records),
    ensures
        shares_total(b.models@) == p.total_input_tokens + p.total_output_tokens
            + p.total_cache_creation_tokens + p.total_cache_read_tokens,
{
    let n = b.models@.len() as int;
    lemma_shares_total_prefix(b, p, n);
    assert(b.models@.take(n) =~= b.models@);
    assert(views(p.model_usage@).take(n) =~= views(p.model_usage@));
    lemma_all_tokens_sum(views(p.model_usage@));
    lemma_model_usage_adds_up(p, path, records);
}

// ============================================================
// Totals over the returned turns
// ============================================================
/// Token count `k` of a turn, as a function.
pub open spec fn usage_of(k: int) -> spec_fn(TurnView) -> nat {
    |t: TurnView| usage_field(t.2, k) as nat
}

proof fn lemma_token_sum_as_sum(l: Seq<TurnView>, k: int)
    ensures
        token_sum(l, k) == sum_of(l, usage_of(k)),
    decreases l.len(),
{
    if l.len() > 0 {
        lemma_token_sum_as_sum(l.drop_last(), k);
    }
}

proof fn lemma_same_token_sum(a: Seq<TurnView>, b: Seq<TurnView>, k: int)
    requires
        a.to_multiset() == b.to_multiset(),
    ensures
        token_sum(a, k) == token_sum(b, k),
{
    lemma_token_sum_as_sum(a, k);
    lemma_token_sum_as_sum(b, k);
    lemma_sum_perm(a, b, usage_of(k));
}

/// A parse result's counts are those of the turns it returns: the number of
/// turns, each token total summed over them, and the first and last
/// timestamps those of the first and last turn (none without turns).
pub proof fn lemma_totals_are_sums_over_turns(
    p: ParseResult,
    path: Seq<char>,
    records: Seq<Option<JsonValue>>,
)
    requires
        parsed_from(p, path, records),
    ensures
        p.total_turns == p.assistant_turns@.len(),
        p.total_input_tokens == token_sum(views(p.assistant_turns@), 0),
        p.total_output_tokens == token_sum(views(p.assistant_turns@), 1),
        p.total_cache_creation_tokens == token_sum(views(p.assistant_turns@), 2),
        p.total_cache_read_tokens == token_sum(views(p.assistant_turns@), 3),
        p.assistant_turns@.len() == 0 ==> p.first_timestamp is None && p.last_timestamp is None,
        p.assistant_turns@.len() > 0 ==> p.first_timestamp == Some(p.assistant_turns@[0].timestamp)
            && p.last_timestamp == Some(
            p.assistant_turns@[p.assistant_turns@.len() - 1].timestamp,
        ),
{
    let l = scan(records).0;
    let t = views(p.assistant_turns@);
    vstd::seq_lib::to_multiset_len(t);
    vstd::seq_lib::to_multiset_len(l);
    lemma_same_token_sum(t, l, 0);
    lemma_same_token_sum(t, l, 1);
    lemma_same_token_sum(t, l, 2);
    lemma_same_token_sum(t, l, 3);
}

// ============================================================
// Deduplicated turns
// ============================================================
/// No two turns of `l` have the same request id.
pub open spec fn distinct_ids(l: Seq<TurnView>) -> bool {
    forall|i: int, j: int| 0 <= i < j < l.len() ==> (#[trigger] l[i]).0 != (#[trigger] l[j]).0
}

proof fn lemma_find_id_none(l: Seq<TurnView>, id: Seq<char>)
    requires
        find_id(l, id) == -1,
    ensures
        forall|k: int| 0 <= k < l.len() ==> (#[trigger] l[k]).0 != id,
    decreases l.len(),
{
    if l.len() > 0 {
        lemma_find_id_none(l.drop_last(), id);
        assert forall|k: int| 0 <= k < l.len() implies (#[trigger] l[k]).0 != id by {
            if k < l.len() - 1 {
                assert(l[k] == l.drop_last()[k]);
            }
        }
    }
}

proof fn lemma_dedup_insert_distinct(l: Seq<TurnView>, t: TurnView)
    requires
        distinct_ids(l),
    ensures
        distinct_ids(dedup_insert(l, t)),
{
    let k = find_id(l, t.0);
    lemma_find_id_bounds(l, t.0);
    if k >= 0 {
        if t.4 is Some {
            let n = l.update(k, t);
            assert forall|i: int, j: int| 0 <= i < j < n.len() implies (#[trigger] n[i]).0 != (
            #[trigger] n[j]).0 by {
                assert(n[i].0 == l[i].0);
                assert(n[j].0 == l[j].0);
            }
        }
    } else {
        lemma_find_id_none(l, t.0);
        let n = l.push(t);
        assert forall|i: int, j: int| 0 <= i < j < n.len() implies (#[trigger] n[i]).0 != (
        #[trigger] n[j]).0 by {
            if j == l.len() {
                assert(n[i] == l[i]);
            } else {
                assert(n[i] == l[i]);
                assert(n[j] == l[j]);
            }
        }
    }
}

proof fn lemma_scan_distinct(records: Seq<Option<JsonValue>>)
    ensures
        distinct_ids(scan(records).0),
    decreases records.len(),
{
    if records.len() > 0 {
        lemma_scan_distinct(records.drop_last());
        let st: ScanState = scan(records.drop_last());
        match records.last() {
            Some(v) => {
                match crate::parser::spec_assistant(v) {
                    Some(t) => {
                        lemma_dedup_insert_distinct(st.0, t);
                    },
                    None => {},
                }
            },
            None => {},
        }
    }
}

/// The indicator of request id `id`.
pub open spec fn has_id(id: Seq<char>) -> spec_fn(TurnView) -> nat {
    |t: TurnView| if t.0 == id {
        1nat
    } else {
        0nat
    }
}

proof fn lemma_id_count_one(l: Seq<TurnView>, id: Seq<char>, i: int)
    requires
        0 <= i < l.len(),
        l[i].0 == id,
    ensures
        sum_of(l, has_id(id)) >= 1,
    decreases l.len(),
{
    if i < l.len() - 1 {
        assert(l.drop_last()[i] == l[i]);
        lemma_id_count_one(l.drop_last(), id, i);
    }
}

proof fn lemma_id_count_two(l: Seq<TurnView>, id: Seq<char>, i: int, j: int)
    requires
        0 <= i < j < l.len(),
        l[i].0 == id,
        l[j].0 == id,
    ensures
        sum_of(l, has_id(id)) >= 2,
    decreases l.len(),
{
    assert(l.drop_last()[i] == l[i]);
    if j == l.len() - 1 {
        lemma_id_count_one(l.drop_last(), id, i);
    } else {
        assert(l.drop_last()[j] == l[j]);
        lemma_id_count_two(l.drop_last(), id, i, j);
    }
}

proof fn lemma_id_count_distinct(l: Seq<TurnView>, id: Seq<char>)
    requires
        distinct_ids(l),
    ensures
        sum_of(l, has_id(id)) <= 1,
    decreases l.len(),
{
    if l.len() > 0 {
        let pre = l.drop_last();
        assert forall|i: int, j: int| 0 <= i < j < pre.len() implies (#[trigger] pre[i]).0 != (
        #[trigger] pre[j]).0 by {
            assert(pre[i] == l[i] && pre[j] == l[j]);
        }
        lemma_id_count_distinct(pre, id);
        if l.last().0 == id && sum_of(pre, has_id(id)) >= 1 {
            lemma_id_count_exists(pre, id);
            let k = choose|k: int| 0 <= k < pre.len() && pre[k].0 == id;
            assert(l[k] == pre[k]);
            assert(l[k].0 == l[l.len() - 1].0);
        }
    }
}

proof fn lemma_id_count_exists(l: Seq<TurnView>, id: Seq<char>)
    requires
        sum_of(l, has_id(id)) >= 1,
    ensures
        exists|k: int| 0 <= k < l.len() && l[k].0 == id,
    decreases l.len(),
{
    if l.last().0 != id {
        lemma_id_count_exists(l.drop_last(), id);
        let k = choose|k: int| 0 <= k < l.drop_last().len() && l.drop_last()[k].0 == id;
        assert(l[k] == l.drop_last()[k]);
    } else {
        assert(l[l.len() - 1].0 == id);
    }
}

/// The turns of a parsed session have pairwise distinct request ids: each
/// response is counted once, however many records it was streamed in.
pub proof fn lemma_request_ids_distinct(
    p: ParseResult,
    path: Seq<char>,
    records: Seq<Option<JsonValue>>,
)
    requires
        parsed_from(p, path, records),
    ensures
        forall|i: int, j: int|
            0 <= i < j < p.assistant_turns@.len() ==> (#[trigger] p.assistant_turns@[i]).request_id@
                != (#[trigger] p.assistant_turns@[j]).request_id@,
{
    let l = scan(records).0;
    let vt = views(p.assistant_turns@);
    lemma_scan_distinct(records);
    assert forall|i: int, j: int|
        0 <= i < j < p.assistant_turns@.len() implies (#[trigger] p.assistant_turns@[i]).request_id@
        != (#[trigger] p.assistant_turns@[j]).request_id@ by {
        if p.assistant_turns@[i].request_id@ == p.assistant_turns@[j].request_id@ {
            let id = p.assistant_turns@[i].request_id@;
            assert(vt[i].0 == id);
            assert(vt[j].0 == id);
            lemma_id_count_two(vt, id, i, j);
            lemma_sum_perm(vt, l, has_id(id));
            lemma_id_count_distinct(l, id);
        }
    }
}

// ============================================================
// Compression events and timestamps
// ============================================================
/// Event `e` is a drop of more than 80% in cache reads.
pub open spec fn is_sharp_drop(e: CompressionEvent) -> bool {
    &&& e.cache_read_before > 0
    &&& e.cache_read_after < e.cache_read_before
    &&& 5 * (e.cache_read_before - e.cache_read_after) > 4 * e.cache_read_before
}

proof fn lemma_compressions_upto(s: Seq<TurnView>, n: int)
    ensures
        forall|k: int|
            0 <= k < compressions_upto(s, n).len() ==> is_sharp_drop(
                #[trigger] compressions_upto(s, n)[k],
            ),
    decreases n,
{
    if n > 1 {
        lemma_compressions_upto(s, n - 1);
        let prev = compressions_upto(s, n - 1);
        if compression_at(s, n - 1) {
            let e = CompressionEvent {
                turn_index: (n - 1) as usize,
                timestamp: s[n - 1].5,
                cache_read_before: s[n - 2].2.cache_read_input_tokens,
                cache_read_after: s[n - 1].2.cache_read_input_tokens,
            };
            assert(compressions_upto(s, n) =~= prev.push(e));
            assert forall|k: int| 0 <= k < compressions_upto(s, n).len() implies is_sharp_drop(
                #[trigger] compressions_upto(s, n)[k],
            ) by {
                if k < prev.len() {
                    assert(compressions_upto(s, n)[k] == prev[k]);
                }
            }
        } else {
            assert(compressions_upto(s, n) =~= prev);
        }
    }
}

/// Every compression event of a parsed session is a drop of more than 80%
/// in cache reads between two consecutive turns of one model.
pub proof fn lemma_compression_events_are_sharp_drops(
    p: ParseResult,
    path: Seq<char>,
    records: Seq<Option<JsonValue>>,
)
    requires
        parsed_from(p, path, records),
    ensures
        forall|k: int|
            0 <= k < p.compression_events@.len() ==> is_sharp_drop(
                #[trigger] p.compression_events@[k],
            ),
{
    let s = views(p.assistant_turns@);
    lemma_compressions_upto(s, s.len() as int);
}

/// In a parsed session the first timestamp is that of the earliest turn and
/// is no later than the last one.
pub proof fn lemma_first_not_after_last(
    p: ParseResult,
    path: Seq<char>,
    records: Seq<Option<JsonValue>>,
)
    requires
        parsed_from(p, path, records),
    ensures
        p.first_timestamp is Some <==> p.last_timestamp is Some,
        p.first_timestamp matches Some(f) ==> (p.last_timestamp matches Some(l)
            && f.spec_order() <= l.spec_order()),
        forall|i: int|
            0 <= i < p.assistant_turns@.len() ==> (p.first_timestamp matches Some(f)
                && f.spec_order() <= (#[trigger] p.assistant_turns@[i]).timestamp.spec_order()),
{
    let t = p.assistant_turns@;
    if t.len() > 0 {
        assert(ordered_by_key(t, false));
        if t.len() > 1 {
            assert(t[0].timestamp.spec_order() <= t[t.len() - 1].timestamp.spec_order()) by {
                assert(t[0].spec_key() <= t[t.len() - 1].spec_key());
            }
        }
        assert forall|i: int| 0 <= i < t.len() implies (p.first_timestamp matches Some(f)
            && f.spec_order() <= (#[trigger] t[i]).timestamp.spec_order()) by {
            if i > 0 {
                assert(t[0].spec_key() <= t[i].spec_key());
            }
        }
    }
}

/// The cache-read count of a turn, as a function.
pub open spec fn cache_read_of() -> spec_fn(TurnView) -> nat {
    |t: TurnView| t.2.cache_read_input_tokens as nat
}

proof fn lemma_token_sum_is_sum(l: Seq<TurnView>)
    ensures
        token_sum(l, 3) == sum_of(l, cache_read_of()),
    decreases l.len(),
{
    if l.len() > 0 {
        lemma_token_sum_is_sum(l.drop_last());
    }
}

proof fn lemma_recovered_bound(s: Seq<TurnView>, n: int)
    requires
        1 <= n <= s.len(),
    ensures
        recovered_sum(compressions_upto(s, n)) <= sum_of(s.take(n - 1), cache_read_of()),
    decreases n,
{
    if n > 1 {
        lemma_recovered_bound(s, n - 1);
        assert(s.take(n - 1).drop_last() =~= s.take(n - 2));
        assert(s.take(n - 1).last() == s[n - 2]);
        let prev = compressions_upto(s, n - 1);
        if compression_at(s, n - 1) {
            let e = CompressionEvent {
                turn_index: (n - 1) as usize,
                timestamp: s[n - 1].5,
                cache_read_before: s[n - 2].2.cache_read_input_tokens,
                cache_read_after: s[n - 1].2.cache_read_input_tokens,
            };
            assert(compressions_upto(s, n) =~= prev.push(e));
            assert(prev.push(e).drop_last() =~= prev);
        } else {
            assert(compressions_upto(s, n) =~= prev);
        }
    } else {
        assert(compressions_upto(s, n) =~= Seq::<CompressionEvent>::empty());
    }
}

proof fn lemma_sum_prefix_le(s: Seq<TurnView>, n: int)
    requires
        0 <= n <= s.len(),
    ensures
        sum_of(s.take(n), cache_read_of()) <= sum_of(s, cache_read_of()),
    decreases s.len() - n,
{
    if n < s.len() {
        lemma_sum_prefix_le(s, n + 1);
        assert(s.take(n + 1).drop_last() =~= s.take(n));
    } else {
        assert(s.take(n) =~= s);
    }
}

/// In a parsed session the cache reads before the compressions (the
/// estimate of recovered tokens) add up to no more than the session's
/// cache reads, so the estimate always fits in a `u64`.
pub proof fn lemma_recovered_within_cache_reads(
    p: ParseResult,
    path: Seq<char>,
    records: Seq<Option<JsonValue>>,
)
    requires
        parsed_from(p, path, records),
    ensures
        recovered_sum(p.compression_events@) <= p.total_cache_read_tokens,
{
    let s = views(p.assistant_turns@);
    let l = scan(records).0;
    if s.len() >= 1 {
        lemma_recovered_bound(s, s.len() as int);
        lemma_sum_prefix_le(s, s.len() - 1);
    } else {
        assert(spec_compressions(s) =~= Seq::<CompressionEvent>::empty());
    }
    lemma_sum_perm(s, l, cache_read_of());
    lemma_token_sum_is_sum(l);
}

} // verus!
