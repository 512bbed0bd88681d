//! Calendar synchronization, compute side: given the events the calendar
//! source handed back for the window, keep the pending ones and order them
//! for the digest — ascending start instant, ties kept in the provider's
//! natural return order (a stable sort). The fetch itself is a network
//! call and happens outside; this logic is verified for every fetch result.

use vstd::prelude::*;
use vstd::relations::sorted_by;

use crate::datetime::{start_key, start_key_u64, start_wf};
use crate::errors::StorageError;
use crate::event::{views, Event, EventView};
use crate::store::{pending_pred, EventStore};

verus! {

/// An event view paired with its position in the pending list before
/// sorting (the provider's natural return order).
pub open spec fn pview(p: (u64, Event)) -> (int, EventView) {
    (p.0 as int, p.1@)
}

pub open spec fn views2(s: Seq<(u64, Event)>) -> Seq<(int, EventView)> {
    s.map_values(|p: (u64, Event)| pview(p))
}

/// Digest order on positioned events: by start instant, ties by position.
pub open spec fn ext_le(a: (int, EventView), b: (int, EventView)) -> bool {
    ||| start_key(a.1.start) < start_key(b.1.start)
    ||| (start_key(a.1.start) == start_key(b.1.start) && a.0 <= b.0)
}

pub open spec fn ext_leq() -> spec_fn((int, EventView), (int, EventView)) -> bool {
    |a: (int, EventView), b: (int, EventView)| ext_le(a, b)
}

/// `x` placed into `s` after every element that orders no later than it.
pub open spec fn spec_insert(
    s: Seq<(int, EventView)>,
    x: (int, EventView),
) -> Seq<(int, EventView)>
    decreases s.len(),
{
    if s.len() == 0 {
        seq![x]
    } else if ext_le(s.last(), x) {
        s.push(x)
    } else {
        spec_insert(s.drop_last(), x).push(s.last())
    }
}

/// The stable sort of `s` under `ext_le`: later elements are placed into
/// the sorted order of the earlier ones.
pub open spec fn spec_sort(s: Seq<(int, EventView)>) -> Seq<(int, EventView)>
    decreases s.len(),
{
    if s.len() == 0 {
        Seq::<(int, EventView)>::empty()
    } else {
        spec_insert(spec_sort(s.drop_last()), s.last())
    }
}

/// Each event of `s` paired with its position.
pub open spec fn indexed(s: Seq<EventView>) -> Seq<(int, EventView)> {
    Seq::new(s.len(), |i: int| (i, s[i]))
}

pub open spec fn positions_dropped(s: Seq<(int, EventView)>) -> Seq<EventView> {
    s.map_values(|p: (int, EventView)| p.1)
}

/// A pending list in digest order: sorted by start instant ascending,
/// equal starts kept in their original order.
pub open spec fn digest_order(pending: Seq<EventView>) -> Seq<EventView> {
    positions_dropped(spec_sort(indexed(pending)))
}

pub open spec fn all_wf(s: Seq<EventView>) -> bool {
    forall|i: int| 0 <= i < s.len() ==> start_wf(#[trigger] s[i].start)
}

pub open spec fn all_wf2(s: Seq<(int, EventView)>) -> bool {
    forall|i: int| 0 <= i < s.len() ==> start_wf(#[trigger] s[i].1.start)
}

/// The order is total: any two positioned events compare one way or the
/// other.
pub proof fn lemma_ext_le_total(a: (int, EventView), b: (int, EventView))
    ensures
        ext_le(a, b) || ext_le(b, a),
{
}

/// What `spec_insert` does, said directly: the result is sorted when the
/// input was, and it holds exactly the input's elements plus `x`.
pub proof fn lemma_spec_insert_ensures(s: Seq<(int, EventView)>, x: (int, EventView))
    requires
        sorted_by(s, ext_leq()),
    ensures
        sorted_by(spec_insert(s, x), ext_leq()),
        spec_insert(s, x).to_multiset() == s.to_multiset().insert(x),
    decreases s.len(),
{
    broadcast use vstd::seq_lib::group_to_multiset_ensures;
    broadcast use vstd::multiset::group_multiset_axioms;

    if s.len() == 0 {
        assert(spec_insert(s, x) =~= seq![x]);
        assert(seq![x].drop_last() =~= Seq::<(int, EventView)>::empty());
        assert(seq![x].to_multiset() =~= s.to_multiset().insert(x));
    } else if ext_le(s.last(), x) {
        assert forall|i: int, j: int|
            0 <= i < j < s.push(x).len() implies ext_leq()(s.push(x)[i], s.push(x)[j]) by {
            if j < s.len() {
                assert(ext_leq()(s[i], s[j]));
            } else {
                if i < s.len() - 1 {
                    assert(ext_leq()(s[i], s[s.len() - 1]));
                } else {
                    assert(s[i] == s.last());
                }
                assert(ext_le(s[i], s.last()));
                assert(ext_le(s.last(), x));
            }
        }
    } else {
        let dl = s.drop_last();
        assert(sorted_by(dl, ext_leq())) by {
            assert forall|i: int, j: int| 0 <= i < j < dl.len() implies ext_leq()(dl[i], dl[j]) by {
                assert(ext_leq()(s[i], s[j]));
            }
        }
        lemma_spec_insert_ensures(dl, x);
        let rec = spec_insert(dl, x);
        // Sortedness: everything in `rec` orders no later than `s.last()`.
        assert forall|i: int| 0 <= i < rec.len() implies ext_le(rec[i], s.last()) by {
            assert(rec.to_multiset().contains(rec[i]));
            if rec[i] == x {
                lemma_ext_le_total(s.last(), x);
            } else {
                assert(dl.to_multiset().contains(rec[i]));
                assert(dl.contains(rec[i]));
                let j = choose|j: int| 0 <= j < dl.len() && dl[j] == rec[i];
                assert(s[j] == dl[j]);
                assert(ext_leq()(s[j], s[s.len() - 1]));
            }
        }
        assert forall|i: int, j: int|
            0 <= i < j < rec.push(s.last()).len() implies ext_leq()(
            rec.push(s.last())[i],
            rec.push(s.last())[j],
        ) by {
            if j < rec.len() {
                assert(ext_leq()(rec[i], rec[j]));
            } else {
                assert(ext_le(rec[i], s.last()));
            }
        }
        // Contents: push and drop_last shuffle the same multiset.
        assert(s =~= dl.push(s.last()));
        assert(s.to_multiset() == dl.to_multiset().insert(s.last()));
        assert(rec.push(s.last()).to_multiset() == rec.to_multiset().insert(s.last()));
        assert(dl.to_multiset().insert(x).insert(s.last()) =~= dl.to_multiset().insert(
            s.last(),
        ).insert(x));
    }
}

/// What `spec_sort` is: a permutation of its input, sorted under the
/// digest order — and sorting under `ext_le` is stability, since ties are
/// ordered by original position.
pub proof fn lemma_spec_sort_ensures(s: Seq<(int, EventView)>)
    ensures
        sorted_by(spec_sort(s), ext_leq()),
        spec_sort(s).to_multiset() == s.to_multiset(),
    decreases s.len(),
{
    broadcast use vstd::seq_lib::group_to_multiset_ensures;

    if s.len() == 0 {
        assert(sorted_by(spec_sort(s), ext_leq()));
    } else {
        let dl = s.drop_last();
        lemma_spec_sort_ensures(dl);
        lemma_spec_insert_ensures(spec_sort(dl), s.last());
        assert(s =~= dl.push(s.last()));
        assert(s.to_multiset() == dl.to_multiset().insert(s.last()));
    }
}

/// Every element of `spec_sort(s)` is an element of `s`, so field facts
/// (such as well-formed starts) carry over.
pub proof fn lemma_spec_sort_wf(s: Seq<(int, EventView)>)
    requires
        all_wf2(s),
    ensures
        all_wf2(spec_sort(s)),
{
    broadcast use vstd::seq_lib::group_to_multiset_ensures;

    lemma_spec_sort_ensures(s);
    assert forall|i: int| 0 <= i < spec_sort(s).len() implies start_wf(
        #[trigger] spec_sort(s)[i].1.start,
    ) by {
        assert(spec_sort(s).to_multiset().contains(spec_sort(s)[i]));
        assert(s.to_multiset().contains(spec_sort(s)[i]));
        assert(s.contains(spec_sort(s)[i]));
    }
}

/// Where the scan stopped is where `spec_insert` places the element.
proof fn lemma_spec_insert_split(u: Seq<(int, EventView)>, x: (int, EventView), k: int)
    requires
        0 <= k <= u.len(),
        forall|i: int| k <= i < u.len() ==> !ext_le(#[trigger] u[i], x),
        k > 0 ==> ext_le(u[k - 1], x),
    ensures
        spec_insert(u, x) == u.take(k) + seq![x] + u.skip(k),
    decreases u.len(),
{
    if u.len() == 0 {
        assert(spec_insert(u, x) =~= u.take(k) + seq![x] + u.skip(k));
    } else if k == u.len() {
        assert(ext_le(u.last(), x));
        assert(u.push(x) =~= u.take(k) + seq![x] + u.skip(k));
    } else {
        assert(!ext_le(u[u.len() - 1], x));
        let dl = u.drop_last();
        lemma_spec_insert_split(dl, x, k);
        assert(spec_insert(u, x) == spec_insert(dl, x).push(u.last()));
        assert((dl.take(k) + seq![x] + dl.skip(k)).push(u.last()) =~= u.take(k) + seq![x] + u.skip(
            k,
        ));
    }
}

/// Whether `a` orders no later than `b` in the digest order.
fn ext_le_exec(a: &(u64, Event), b: &(u64, Event)) -> (r: bool)
    requires
        start_wf(a.1.start),
        start_wf(b.1.start),
    ensures
        r == ext_le(pview(*a), pview(*b)),
{
    let ka = start_key_u64(&a.1.start);
    let kb = start_key_u64(&b.1.start);
    if ka < kb {
        true
    } else if ka == kb {
        a.0 <= b.0
    } else {
        false
    }
}

/// Places `x` into the already-ordered `arr` exactly as `spec_insert` says.
fn insert_in_order(arr: &mut Vec<(u64, Event)>, x: (u64, Event))
    requires
        all_wf2(views2(old(arr)@)),
        start_wf(x.1.start),
    ensures
        views2(final(arr)@) == spec_insert(views2(old(arr)@), pview(x)),
        all_wf2(views2(final(arr)@)),
{
    let ghost u = views2(arr@);
    let mut k: usize = arr.len();
    loop
        invariant
            arr@ == old(arr)@,
            u == views2(arr@),
            all_wf2(u),
            start_wf(x.1.start),
            k <= arr@.len(),
            forall|i: int| k <= i < u.len() ==> !ext_le(#[trigger] u[i], pview(x)),
        ensures
            arr@ == old(arr)@,
            k <= arr@.len(),
            forall|i: int| k <= i < u.len() ==> !ext_le(#[trigger] u[i], pview(x)),
            k > 0 ==> ext_le(u[k as int - 1], pview(x)),
        decreases k,
    {
        if k == 0 {
            break ;
        }
        proof {
            assert(u[k as int - 1] == pview(arr@[k as int - 1]));
            assert(start_wf(u[k as int - 1].1.start));
        }
        if ext_le_exec(&arr[k - 1], &x) {
            break ;
        }
        k = k - 1;
    }
    proof {
        lemma_spec_insert_split(u, pview(x), k as int);
    }
    arr.insert(k, x);
    proof {
        assert(views2(arr@) =~= u.take(k as int) + seq![pview(x)] + u.skip(k as int));
        assert(all_wf2(views2(arr@)));
    }
}

/// Filtering keeps only elements of the input, so well-formed starts
/// carry over to the filtered sequence.
pub proof fn lemma_filter_wf(s: Seq<EventView>, pred: spec_fn(EventView) -> bool)
    requires
        all_wf(s),
    ensures
        all_wf(s.filter(pred)),
    decreases s.len(),
{
    reveal(Seq::filter);
    if s.len() > 0 {
        let dl = s.drop_last();
        assert(all_wf(dl)) by {
            assert forall|i: int| 0 <= i < dl.len() implies start_wf(#[trigger] dl[i].start) by {
                assert(dl[i] == s[i]);
            }
        }
        lemma_filter_wf(dl, pred);
        let out = s.filter(pred);
        assert forall|i: int| 0 <= i < out.len() implies start_wf(#[trigger] out[i].start) by {
            if pred(s.last()) {
                assert(out == dl.filter(pred).push(s.last()));
                if i < out.len() - 1 {
                    assert(out[i] == dl.filter(pred)[i]);
                } else {
                    assert(out[i] == s.last());
                }
            } else {
                assert(out == dl.filter(pred));
            }
        }
    }
}

/// The digest order is sorted: no event is listed before one that starts
/// earlier. (Ties keep provider order; `lemma_spec_sort_ensures` states
/// that through the positions.)
pub proof fn lemma_digest_order_sorted(s: Seq<EventView>)
    ensures
        digest_order(s).len() == s.len(),
        forall|i: int, j: int|
            0 <= i < j < digest_order(s).len() ==> start_key(#[trigger] digest_order(s)[i].start)
                <= start_key(#[trigger] digest_order(s)[j].start),
{
    broadcast use vstd::seq_lib::group_to_multiset_ensures;

    lemma_spec_sort_ensures(indexed(s));
    let t = spec_sort(indexed(s));
    assert(t.len() == t.to_multiset().len());
    assert(indexed(s).len() == indexed(s).to_multiset().len());
    assert forall|i: int, j: int|
        0 <= i < j < digest_order(s).len() implies start_key(
        #[trigger] digest_order(s)[i].start,
    ) <= start_key(#[trigger] digest_order(s)[j].start) by {
        assert(ext_leq()(t[i], t[j]));
        assert(digest_order(s)[i] == t[i].1);
        assert(digest_order(s)[j] == t[j].1);
    }
}

/// Digest order keeps well-formed starts: its events are the input's.
pub proof fn lemma_digest_order_wf(s: Seq<EventView>)
    requires
        all_wf(s),
    ensures
        all_wf(digest_order(s)),
{
    assert(all_wf2(indexed(s))) by {
        assert forall|i: int| 0 <= i < indexed(s).len() implies start_wf(
            #[trigger] indexed(s)[i].1.start,
        ) by {
            assert(indexed(s)[i].1 == s[i]);
        }
    }
    lemma_spec_sort_wf(indexed(s));
    let t = spec_sort(indexed(s));
    assert forall|i: int| 0 <= i < digest_order(s).len() implies start_wf(
        #[trigger] digest_order(s)[i].start,
    ) by {
        assert(digest_order(s)[i] == t[i].1);
    }
}

/// Puts a pending list into digest order: ascending start instant, ties
/// kept in the order the provider returned them.
pub fn order_pending(pending: Vec<Event>) -> (r: Vec<Event>)
    requires
        all_wf(views(pending@)),
    ensures
        views(r@) == digest_order(views(pending@)),
{
    let ghost pv = views(pending@);
    let mut ix: Vec<(u64, Event)> = Vec::new();
    let mut i: usize = 0;
    while i < pending.len()
        invariant
            i <= pending@.len(),
            pv == views(pending@),
            all_wf(pv),
            views2(ix@) == indexed(pv).take(i as int),
            all_wf2(views2(ix@)),
        decreases pending@.len() - i,
    {
        let ev = pending[i].clone();
        let ghost evv = ev@;
        proof {
            assert(evv == pv[i as int]);
        }
        let ghost pre = ix@;
        proof {
            assert(i <= pv.len());
            assert(indexed(pv).len() == pv.len());
            assert(indexed(pv).take(i as int).len() == i);
            assert(views2(pre).len() == pre.len());
            assert(pre.len() == i);
        }
        ix.push((i as u64, ev));
        proof {
            assert(ix@.len() == i + 1);
            assert forall|m: int| 0 <= m < i + 1 implies views2(ix@)[m] == indexed(pv).take(
                i as int + 1,
            )[m] by {
                assert(views2(ix@)[m] == pview(ix@[m]));
                if m < i {
                    assert(ix@[m] == pre[m]);
                    assert(views2(pre)[m] == pview(pre[m]));
                    assert(views2(pre)[m] == indexed(pv).take(i as int)[m]);
                } else {
                    assert(ix@[m].1@ == evv);
                    assert(views2(ix@)[m].0 == i as int);
                    assert(views2(ix@)[m].1 == pv[m]);
                }
            }
            assert(views2(ix@) =~= indexed(pv).take(i as int + 1));
            assert(all_wf2(views2(ix@))) by {
                assert forall|m: int| 0 <= m < views2(ix@).len() implies start_wf(
                    #[trigger] views2(ix@)[m].1.start,
                ) by {
                    assert(views2(ix@)[m].1 == pv[m]);
                }
            }
        }
        i = i + 1;
    }
    proof {
        assert(indexed(pv).take(pv.len() as int) =~= indexed(pv));
    }
    let mut sorted: Vec<(u64, Event)> = Vec::new();
    let mut j: usize = 0;
    while j < ix.len()
        invariant
            j <= ix@.len(),
            views2(ix@) == indexed(pv),
            all_wf2(views2(ix@)),
            views2(sorted@) == spec_sort(views2(ix@).take(j as int)),
            all_wf2(views2(sorted@)),
        decreases ix@.len() - j,
    {
        let x = (ix[j].0, ix[j].1.clone());
        proof {
            assert(views2(ix@)[j as int] == pview(ix@[j as int]));
            assert(start_wf(views2(ix@)[j as int].1.start));
            assert(x.1@ == ix@[j as int].1@);
            assert(start_wf(x.1.start));
            assert(views2(ix@).take(j as int + 1).drop_last() =~= views2(ix@).take(j as int));
            assert(views2(ix@).take(j as int + 1).last() == pview(ix@[j as int]));
            assert(pview(x) == pview(ix@[j as int]));
        }
        insert_in_order(&mut sorted, x);
        proof {
            assert(views2(sorted@) == spec_sort(views2(ix@).take(j as int + 1)));
        }
        j = j + 1;
    }
    proof {
        assert(views2(ix@).take(ix@.len() as int) =~= views2(ix@));
    }
    let mut out: Vec<Event> = Vec::new();
    let mut m: usize = 0;
    while m < sorted.len()
        invariant
            m <= sorted@.len(),
            views2(sorted@) == spec_sort(indexed(pv)),
            views(out@) == positions_dropped(views2(sorted@)).take(m as int),
        decreases sorted@.len() - m,
    {
        let ev = sorted[m].1.clone();
        let ghost evv = ev@;
        proof {
            assert(evv == sorted@[m as int].1@);
            assert(positions_dropped(views2(sorted@))[m as int] == views2(sorted@)[m as int].1);
            assert(views2(sorted@)[m as int] == pview(sorted@[m as int]));
        }
        let ghost preo = out@;
        proof {
            assert(m <= views2(sorted@).len());
            assert(positions_dropped(views2(sorted@)).len() == views2(sorted@).len());
            assert(positions_dropped(views2(sorted@)).take(m as int).len() == m);
            assert(views(preo).len() == preo.len());
            assert(preo.len() == m);
        }
        out.push(ev);
        proof {
            assert(out@.len() == m + 1);
            assert(out@[m as int]@ == evv);
            assert forall|q: int| 0 <= q < m + 1 implies views(out@)[q] == positions_dropped(
                views2(sorted@),
            ).take(m as int + 1)[q] by {
                assert(views(out@)[q] == out@[q]@);
                assert(positions_dropped(views2(sorted@))[q] == views2(sorted@)[q].1);
                assert(views2(sorted@)[q] == pview(sorted@[q]));
            }
            assert(views(out@) =~= positions_dropped(views2(sorted@)).take(m as int + 1));
        }
        m = m + 1;
    }
    proof {
        assert(positions_dropped(views2(sorted@)).take(sorted@.len() as int) =~= positions_dropped(
            views2(sorted@),
        ));
    }
    out
}

/// The compute step of a sync cycle: of the events fetched for the
/// window, those with no completion record, in digest order. The record
/// set is read in one query; if that read fails the cycle aborts with
/// nothing produced.
pub fn sync_pending(store: &EventStore, fetched: &Vec<Event>) -> (r: Result<
    Vec<Event>,
    StorageError,
>)
    requires
        all_wf(views(fetched@)),
    ensures
        r is Ok ==> views(r->Ok_0@) == digest_order(
            views(fetched@).filter(pending_pred(store@)),
        ),
{
    let pending = match store.filter_pending(fetched) {
        Ok(p) => p,
        Err(e) => {
            return Err(e);
        },
    };
    proof {
        lemma_filter_wf(views(fetched@), pending_pred(store@));
    }
    Ok(order_pending(pending))
}

} // verus!
