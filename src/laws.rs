use vstd::prelude::*;
use crate::pool::PoolModel;

verus! {

/// Every worker in `ws` is a worker of `m`.
pub open spec fn valid_workers<J>(m: PoolModel<J>, ws: Seq<nat>) -> bool {
    forall|i: int| 0 <= i < ws.len() ==> #[trigger] ws[i] < m.ids.len()
}

proof fn lemma_take_each<J>(m: PoolModel<J>, ws: Seq<nat>)
    requires
        m.wf(),
        valid_workers(m, ws),
    ensures
        ({
            let (r, hs) = m.take_each(ws);
            &&& r.wf()
            &&& r.ids == m.ids
            &&& r.jobs == m.jobs
            &&& r.open == m.open
            &&& hs.len() == ws.len()
            &&& r.takers.len() == if m.takers.len() + ws.len() <= m.jobs.len() {
                m.takers.len() + ws.len()
            } else {
                m.jobs.len()
            }
            &&& r.takers.subrange(0, m.takers.len() as int) == m.takers
            &&& forall|i: int|
                0 <= i < hs.len() && (#[trigger] hs[i]) is Some ==> {
                    &&& m.takers.len() <= hs[i]->0 < r.takers.len()
                    &&& r.takers[hs[i]->0 as int] == ws[i]
                }
            &&& forall|i: int, j: int|
                0 <= i < j < hs.len() && (#[trigger] hs[i]) is Some && (#[trigger] hs[j]) is Some
                    ==> hs[i]->0 < hs[j]->0
            &&& forall|t: nat|
                m.takers.len() <= t < r.takers.len() ==> #[trigger] hs.contains(Some(t))
        }),
    decreases ws.len(),
{
    if ws.len() > 0 {
        let prev = ws.drop_last();
        assert(valid_workers(m, prev)) by {
            assert forall|i: int| 0 <= i < prev.len() implies #[trigger] prev[i] < m.ids.len() by {
                assert(prev[i] == ws[i]);
            }
        }
        lemma_take_each(m, prev);
        let (m1, hs1) = m.take_each(prev);
        let (r, hs) = m.take_each(ws);
        let w = ws.last();
        assert(w == ws[ws.len() - 1]);
        assert(hs == hs1.push(m1.ticket()));
        assert(r == m1.take(w));
        if m1.takers.len() < m1.jobs.len() {
            assert(r.takers == m1.takers.push(w));
            assert(r.takers.subrange(0, m.takers.len() as int) =~= m1.takers.subrange(
                0,
                m.takers.len() as int,
            ));
            assert forall|i: int|
                0 <= i < hs.len() && (#[trigger] hs[i]) is Some implies {
                &&& m.takers.len() <= hs[i]->0 < r.takers.len()
                &&& r.takers[hs[i]->0 as int] == ws[i]
            } by {
                if i < hs1.len() {
                    assert(hs[i] == hs1[i]);
                    assert(ws[i] == prev[i]);
                }
            }
            assert forall|t: nat| m.takers.len() <= t < r.takers.len() implies #[trigger] hs.contains(
                Some(t),
            ) by {
                if t < m1.takers.len() {
                    assert(hs1.contains(Some(t)));
                    let i = choose|i: int| 0 <= i < hs1.len() && hs1[i] == Some(t);
                    assert(hs[i] == hs1[i]);
                } else {
                    assert(hs[hs.len() - 1] == Some(t));
                }
            }
        } else {
            assert forall|i: int|
                0 <= i < hs.len() && (#[trigger] hs[i]) is Some implies {
                &&& m.takers.len() <= hs[i]->0 < r.takers.len()
                &&& r.takers[hs[i]->0 as int] == ws[i]
            } by {
                assert(hs[i] == hs1[i]);
                assert(ws[i] == prev[i]);
            }
            assert forall|t: nat| m.takers.len() <= t < r.takers.len() implies #[trigger] hs.contains(
                Some(t),
            ) by {
                assert(hs1.contains(Some(t)));
                let i = choose|i: int| 0 <= i < hs1.len() && hs1[i] == Some(t);
                assert(hs[i] == hs1[i]);
            }
        }
        assert forall|i: int, j: int|
            0 <= i < j < hs.len() && (#[trigger] hs[i]) is Some && (#[trigger] hs[j]) is Some
                implies hs[i]->0 < hs[j]->0 by {
            assert(hs[i] == hs1[i]);
            if j < hs1.len() {
                assert(hs[j] == hs1[j]);
            }
        }
    } else {
        assert(m.takers.subrange(0, m.takers.len() as int) =~= m.takers);
    }
}

/// No two requests for work, by the same worker or by two workers, are ever
/// handed the same job: the tickets handed out are distinct.
pub proof fn tickets_never_repeat<J>(m: PoolModel<J>, ws: Seq<nat>)
    requires
        m.wf(),
        valid_workers(m, ws),
    ensures
        forall|i: int, j: int|
            0 <= i < ws.len() && 0 <= j < ws.len() && i != j
                && (#[trigger] m.take_each(ws).1[i]) is Some
                && (#[trigger] m.take_each(ws).1[j]) is Some
                ==> m.take_each(ws).1[i] != m.take_each(ws).1[j],
{
    lemma_take_each(m, ws);
    let hs = m.take_each(ws).1;
    assert forall|i: int, j: int|
        0 <= i < ws.len() && 0 <= j < ws.len() && i != j
            && (#[trigger] hs[i]) is Some && (#[trigger] hs[j]) is Some implies hs[i] != hs[j] by {
        if i < j {
            assert(hs[i]->0 < hs[j]->0);
        } else {
            assert(hs[j]->0 < hs[i]->0);
        }
    }
}

/// Ticket `t` is handed to exactly one of the requests whose tickets are `hs`.
pub open spec fn handed_once(hs: Seq<Option<nat>>, t: nat) -> bool {
    exists|i: int|
        {
            &&& 0 <= i < hs.len()
            &&& #[trigger] hs[i] == Some(t)
            &&& forall|j: int| 0 <= j < hs.len() && j != i ==> #[trigger] hs[j] != Some(t)
        }
}

/// Once workers have asked for work at least as many times as jobs are
/// queued, every queued job has been taken, each by exactly one request,
/// and each job taken is recorded against the worker that asked.
pub proof fn every_job_taken_once<J>(m: PoolModel<J>, ws: Seq<nat>)
    requires
        m.wf(),
        valid_workers(m, ws),
        ws.len() >= m.pending().len(),
    ensures
        m.take_each(ws).0.pending().len() == 0,
        m.take_each(ws).0.jobs == m.jobs,
        forall|t: nat|
            m.takers.len() <= t < m.jobs.len() ==> #[trigger] handed_once(m.take_each(ws).1, t),
        forall|i: int|
            0 <= i < ws.len() && (#[trigger] m.take_each(ws).1[i]) is Some
                ==> m.take_each(ws).0.takers[m.take_each(ws).1[i]->0 as int] == ws[i],
{
    lemma_take_each(m, ws);
    tickets_never_repeat(m, ws);
    let (r, hs) = m.take_each(ws);
    assert forall|t: nat| m.takers.len() <= t < m.jobs.len() implies #[trigger] handed_once(hs, t) by {
        assert(hs.contains(Some(t)));
        let i = choose|i: int| 0 <= i < hs.len() && hs[i] == Some(t);
        assert(hs[i] is Some);
        assert forall|j: int| 0 <= j < hs.len() && j != i implies #[trigger] hs[j] != Some(t) by {
            if hs[j] is Some {
                assert(hs[i] != hs[j]);
            }
        }
    }
}

/// A pool without workers never hands out a job: whatever it accepted is
/// still queued.
pub proof fn no_workers_take_nothing<J>(m: PoolModel<J>)
    requires
        m.wf(),
        m.ids.len() == 0,
    ensures
        m.takers.len() == 0,
        m.pending() == m.jobs,
{
    if m.takers.len() > 0 {
        assert(m.takers[0] < m.ids.len());
    }
    assert(m.pending() =~= m.jobs);
}

} // verus!
