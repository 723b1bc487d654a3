//! Ordering records by an integer key.
use vstd::prelude::*;
use vstd::multiset::Multiset;

verus! {

/// Records that are ordered by an integer key.
pub trait SortKey: View + Sized {
    /// The key of the record.
    spec fn spec_key(&self) -> int;

    /// The key of the record.
    fn sort_key(&self) -> (r: i128)
        ensures
            r as int == self.spec_key(),
    ;
}

/// The records of `v`, as values.
pub open spec fn views<T: View>(v: Seq<T>) -> Seq<T::V> {
    v.map_values(|x: T| x@)
}

/// `v` is ordered by key: ascending, or descending when `descending` holds.
pub open spec fn ordered_by_key<T: SortKey>(v: Seq<T>, descending: bool) -> bool {
    forall|i: int, j: int|
        0 <= i < j < v.len() ==> if descending {
            (#[trigger] v[i]).spec_key() >= (#[trigger] v[j]).spec_key()
        } else {
            v[i].spec_key() <= v[j].spec_key()
        }
}

proof fn lemma_views_insert<T: View>(s: Seq<T>, i: int, x: T)
    requires
        0 <= i <= s.len(),
    ensures
        views(s.insert(i, x)) == views(s).insert(i, x@),
{
    assert(views(s.insert(i, x)) =~= views(s).insert(i, x@));
}

proof fn lemma_views_pop<T: View>(s: Seq<T>)
    requires
        s.len() > 0,
    ensures
        views(s) == views(s.drop_last()).push(s.last()@),
{
    assert(views(s) =~= views(s.drop_last()).push(s.last()@));
}

fn precedes(a: i128, b: i128, descending: bool) -> (r: bool)
    ensures
        r == if descending {
            a >= b
        } else {
            a <= b
        },
{
    if descending {
        a >= b
    } else {
        a <= b
    }
}

/// Reorders `v` by key, ascending or descending; records with equal keys may
/// come in any order.
pub fn sort_by_key<T: SortKey>(v: Vec<T>, descending: bool) -> (r: Vec<T>)
    ensures
        r@.len() == v@.len(),
        views(r@).to_multiset() == views(v@).to_multiset(),
        ordered_by_key(r@, descending),
{
    broadcast use vstd::seq_lib::to_multiset_build, vstd::seq_lib::to_multiset_insert;

    let ghost orig = views(v@);
    let mut src = v;
    let mut out: Vec<T> = Vec::new();
    assert(views(out@) =~= Seq::<T::V>::empty());
    assert(views(out@).to_multiset() =~= Multiset::empty()) by {
        broadcast use vstd::multiset::group_multiset_axioms;
        vstd::seq_lib::to_multiset_len(views(out@));
    }
    while src.len() > 0
        invariant
            views(out@).to_multiset().add(views(src@).to_multiset()) == orig.to_multiset(),
            out@.len() + src@.len() == orig.len(),
            ordered_by_key(out@, descending),
        decreases src.len(),
    {
        let ghost before_src = src@;
        let x = src.pop().unwrap();
        proof {
            lemma_views_pop(before_src);
            assert(before_src.drop_last() == src@);
            vstd::seq_lib::to_multiset_build(views(src@), x@);
            assert(views(before_src).to_multiset() == views(src@).to_multiset().insert(x@));
        }
        let k = x.sort_key();
        let mut p: usize = 0;
        while p < out.len() && precedes(out[p].sort_key(), k, descending)
            invariant
                p <= out.len(),
                forall|q: int|
                    0 <= q < p ==> if descending {
                        (#[trigger] out@[q]).spec_key() >= k
                    } else {
                        out@[q].spec_key() <= k
                    },
            decreases out.len() - p,
        {
            p = p + 1;
        }
        let ghost before_out = out@;
        out.insert(p, x);
        proof {
            lemma_views_insert(before_out, p as int, x);
            vstd::seq_lib::to_multiset_insert(views(before_out), p as int, x@);
            assert(views(out@).to_multiset() == views(before_out).to_multiset().insert(x@));
            broadcast use vstd::multiset::group_multiset_axioms;
            assert(views(out@).to_multiset().add(views(src@).to_multiset()) =~= orig.to_multiset());
            assert forall|i: int, j: int| 0 <= i < j < out@.len() implies if descending {
                (#[trigger] out@[i]).spec_key() >= (#[trigger] out@[j]).spec_key()
            } else {
                out@[i].spec_key() <= out@[j].spec_key()
            } by {
                if j < p {
                    assert(out@[i] == before_out[i] && out@[j] == before_out[j]);
                } else if j == p {
                    assert(out@[i] == before_out[i]);
                } else if i < p {
                    assert(out@[i] == before_out[i] && out@[j] == before_out[j - 1]);
                    if descending {
                        assert(before_out[p as int].spec_key() < k);
                        assert(before_out[p as int].spec_key() >= before_out[j - 1].spec_key());
                    } else {
                        assert(before_out[p as int].spec_key() > k);
                        assert(before_out[p as int].spec_key() <= before_out[j - 1].spec_key());
                    }
                } else if i == p {
                    assert(out@[j] == before_out[j - 1]);
                    assert(before_out[p as int].spec_key() >= before_out[j - 1].spec_key()
                        || !descending);
                    assert(before_out[p as int].spec_key() <= before_out[j - 1].spec_key()
                        || descending);
                } else {
                    assert(out@[i] == before_out[i - 1] && out@[j] == before_out[j - 1]);
                }
            }
        }
    }
    proof {
        broadcast use vstd::multiset::group_multiset_axioms;
        assert(views(src@) =~= Seq::<T::V>::empty());
        vstd::seq_lib::to_multiset_len(views(src@));
        assert(views(src@).to_multiset() =~= Multiset::empty());
        assert(views(out@).to_multiset() =~= orig.to_multiset());
    }
    out
}

} // verus!
