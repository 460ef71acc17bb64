use vstd::prelude::*;

use crate::maimai::schema::latest::{Idx, PlayTime};

verus! {

/// Whether the time `t` is among the times of `saved` or of the entries of
/// `planned`.
pub open spec fn time_known(saved: Seq<PlayTime>, planned: Seq<(PlayTime, Idx)>, t: PlayTime) -> bool {
    saved.contains(t) || exists|i: int| 0 <= i < planned.len() && (#[trigger] planned[i]).0 == t
}

/// The records to download, from the entries of the record index taken
/// oldest first (`order`): an entry is downloaded when neither the saved
/// records nor an entry downloaded before it has its time.
pub open spec fn download_plan(saved: Seq<PlayTime>, order: Seq<(PlayTime, Idx)>) -> Seq<(PlayTime, Idx)>
    decreases order.len(),
{
    if order.len() == 0 {
        Seq::empty()
    } else {
        let p = download_plan(saved, order.drop_last());
        if time_known(saved, p, order.last().0) {
            p
        } else {
            p.push(order.last())
        }
    }
}

fn known_in(saved: &Vec<PlayTime>, planned: &Vec<(PlayTime, Idx)>, t: PlayTime) -> (r: bool)
    ensures
        r == time_known(saved@, planned@, t),
{
    let mut i: usize = 0;
    while i < saved.len()
        invariant
            0 <= i <= saved@.len(),
            forall|j: int| 0 <= j < i ==> saved@[j] != t,
        decreases saved@.len() - i,
    {
        if saved[i].get() == t.get() {
            proof {
                PlayTime::lemma_seconds_injective(saved@[i as int], t);
            }
            return true;
        }
        i = i + 1;
    }
    let mut j: usize = 0;
    while j < planned.len()
        invariant
            0 <= j <= planned@.len(),
            !saved@.contains(t),
            forall|m: int| 0 <= m < j ==> (#[trigger] planned@[m]).0 != t,
        decreases planned@.len() - j,
    {
        if planned[j].0.get() == t.get() {
            proof {
                PlayTime::lemma_seconds_injective(planned@[j as int].0, t);
            }
            return true;
        }
        j = j + 1;
    }
    false
}

/// The entries of the record index (newest first, as the page lists them)
/// whose records are to be downloaded, oldest first: those whose time is
/// neither saved nor taken by an older entry of the index.
pub fn records_to_download(saved: &Vec<PlayTime>, index: &Vec<(PlayTime, Idx)>) -> (r: Vec<(PlayTime, Idx)>)
    ensures
        r@ == download_plan(saved@, index@.reverse()),
{
    let mut out: Vec<(PlayTime, Idx)> = Vec::new();
    let mut k: usize = index.len();
    let ghost rev = index@.reverse();
    while k > 0
        invariant
            0 <= k <= index@.len(),
            rev == index@.reverse(),
            out@ == download_plan(saved@, rev.take(index@.len() - k)),
        decreases k,
    {
        let ghost n = index@.len() - k;
        proof {
            assert(rev.take(n + 1).drop_last() =~= rev.take(n));
            assert(rev.take(n + 1).last() == index@[k - 1]);
        }
        k = k - 1;
        let e = index[k];
        if !known_in(saved, &out, e.0) {
            out.push(e);
        }
    }
    proof {
        assert(rev.take(index@.len() as int) =~= rev);
    }
    out
}

/// The times of planned downloads.
pub open spec fn plan_times(p: Seq<(PlayTime, Idx)>) -> Seq<PlayTime> {
    p.map_values(|e: (PlayTime, Idx)| e.0)
}

proof fn lemma_plan_props(saved: Seq<PlayTime>, order: Seq<(PlayTime, Idx)>)
    ensures
        forall|i: int|
            0 <= i < download_plan(saved, order).len() ==> !saved.contains(
                (#[trigger] download_plan(saved, order)[i]).0,
            ),
        forall|i: int, j: int|
            0 <= i < j < download_plan(saved, order).len() ==> (#[trigger] download_plan(saved, order)[i]).0
                != (#[trigger] download_plan(saved, order)[j]).0,
        forall|k: int| 0 <= k < order.len() ==> time_known(saved, download_plan(saved, order), (#[trigger] order[k]).0),
    decreases order.len(),
{
    if order.len() > 0 {
        let prev = order.drop_last();
        lemma_plan_props(saved, prev);
        let p = download_plan(saved, prev);
        let x = order.last();
        assert forall|k: int| 0 <= k < prev.len() implies #[trigger] prev[k] == order[k] by {}
        if !time_known(saved, p, x.0) {
            let q = p.push(x);
            assert forall|k: int| 0 <= k < order.len() implies time_known(saved, q, (#[trigger] order[k]).0) by {
                if k < prev.len() {
                    assert(prev[k] == order[k]);
                    if !saved.contains(order[k].0) {
                        let w = choose|w: int| 0 <= w < p.len() && (#[trigger] p[w]).0 == order[k].0;
                        assert(q[w] == p[w]);
                    }
                } else {
                    assert(q[p.len() as int] == x);
                }
            }
            assert forall|i: int, j: int| 0 <= i < j < q.len() implies (#[trigger] q[i]).0 != (#[trigger] q[j]).0 by {
                if j == p.len() {
                    assert(q[i] == p[i]);
                    assert(!(0 <= i < p.len() && p[i].0 == x.0));
                } else {
                    assert(q[i] == p[i] && q[j] == p[j]);
                }
            }
            assert forall|i: int| 0 <= i < q.len() implies !saved.contains((#[trigger] q[i]).0) by {
                if i < p.len() {
                    assert(q[i] == p[i]);
                }
            }
        } else {
            assert forall|k: int| 0 <= k < order.len() implies time_known(saved, p, (#[trigger] order[k]).0) by {
                if k < prev.len() {
                    assert(prev[k] == order[k]);
                }
            }
        }
    }
}

proof fn lemma_plan_empty_when_known(saved: Seq<PlayTime>, order: Seq<(PlayTime, Idx)>)
    requires
        forall|k: int| 0 <= k < order.len() ==> saved.contains((#[trigger] order[k]).0),
    ensures
        download_plan(saved, order).len() == 0,
    decreases order.len(),
{
    if order.len() > 0 {
        let prev = order.drop_last();
        assert forall|k: int| 0 <= k < prev.len() implies saved.contains((#[trigger] prev[k]).0) by {
            assert(prev[k] == order[k]);
        }
        lemma_plan_empty_when_known(saved, prev);
        assert(saved.contains(order[order.len() - 1].0));
    }
}

/// What a download plan promises, for the record index taken oldest first
/// (`order`): no planned record is saved already, no time is planned twice,
/// and after the downloads every time of the index is stored.
pub proof fn lemma_download_plan_complete(saved: Seq<PlayTime>, order: Seq<(PlayTime, Idx)>)
    ensures
        forall|i: int|
            0 <= i < download_plan(saved, order).len() ==> !saved.contains(
                (#[trigger] download_plan(saved, order)[i]).0,
            ),
        forall|i: int, j: int|
            0 <= i < j < download_plan(saved, order).len() ==> (#[trigger] download_plan(saved, order)[i]).0
                != (#[trigger] download_plan(saved, order)[j]).0,
        forall|k: int|
            0 <= k < order.len() ==> (saved + plan_times(download_plan(saved, order))).contains(
                (#[trigger] order[k]).0,
            ),
{
    lemma_plan_props(saved, order);
    let p = download_plan(saved, order);
    let all = saved + plan_times(p);
    assert forall|k: int| 0 <= k < order.len() implies all.contains((#[trigger] order[k]).0) by {
        let t = order[k].0;
        if saved.contains(t) {
            let w = choose|w: int| 0 <= w < saved.len() && saved[w] == t;
            assert(all[w] == t);
        } else {
            let w = choose|w: int| 0 <= w < p.len() && (#[trigger] p[w]).0 == t;
            assert(all[saved.len() + w] == t);
        }
    }
}

/// Updating twice downloads nothing the second time: once the planned
/// records are stored, the plan for the same index is empty.
pub proof fn lemma_download_plan_settles(saved: Seq<PlayTime>, order: Seq<(PlayTime, Idx)>)
    ensures
        download_plan(saved + plan_times(download_plan(saved, order)), order).len() == 0,
{
    lemma_download_plan_complete(saved, order);
    lemma_plan_empty_when_known(saved + plan_times(download_plan(saved, order)), order);
}

} // verus!
