use vstd::prelude::*;
use crate::correlate::{RecvEvent, batch_total};

verus! {

/// The receiving side of a run: counts logical messages and records one
/// event per non-empty drain of the transport until `target` have arrived.
pub struct Consumer {
    pub target: usize,
    pub received: usize,
    pub events: Vec<RecvEvent>,
}

/// Batch `k` of `events` is the one whose messages first bring the
/// cumulative count to `target`.
pub open spec fn completes_at(events: Seq<RecvEvent>, target: nat, k: int) -> bool {
    0 <= k < events.len() && batch_total(events.take(k)) < target && target <= batch_total(
        events.take(k + 1),
    )
}

pub proof fn lemma_batch_total_monotone(events: Seq<RecvEvent>, i: int, j: int)
    requires
        0 <= i <= j <= events.len(),
    ensures
        batch_total(events.take(i)) <= batch_total(events.take(j)),
    decreases j - i,
{
    if i < j {
        assert(events.take(j).drop_last() =~= events.take(j - 1));
        lemma_batch_total_monotone(events, i, j - 1);
    }
}

/// The completion signal flips once: no two drains both bring the count to
/// the target for the first time, and when the messages received reach a
/// positive target, one drain does.
pub proof fn lemma_completes_once(events: Seq<RecvEvent>, target: nat)
    ensures
        forall|i: int, j: int|
            completes_at(events, target, i) && completes_at(events, target, j) ==> i == j,
        0 < target <= batch_total(events) ==> exists|k: int| completes_at(events, target, k),
    decreases events.len(),
{
    assert forall|i: int, j: int|
        completes_at(events, target, i) && completes_at(events, target, j) implies i == j by {
        if i < j {
            lemma_batch_total_monotone(events, i + 1, j);
        } else if j < i {
            lemma_batch_total_monotone(events, j + 1, i);
        }
    }
    if 0 < target <= batch_total(events) {
        let d = events.drop_last();
        assert(events.take(events.len() as int) =~= events);
        assert(events.take(events.len() - 1) =~= d);
        if batch_total(d) < target {
            assert(completes_at(events, target, events.len() - 1));
        } else {
            lemma_completes_once(d, target);
            let k = choose|k: int| completes_at(d, target, k);
            assert(d.take(k) =~= events.take(k));
            assert(d.take(k + 1) =~= events.take(k + 1));
            assert(completes_at(events, target, k));
        }
    }
}

/// The events of a finished run: the count reached the target with the
/// last drain and not before it, so the completion signal was due exactly
/// once, at that drain, and nothing was drained after it.
pub proof fn lemma_run_completes_at_last_drain(c: Consumer)
    requires
        c.wf(),
        c.done(),
        c.target >= 1,
    ensures
        c.events@.len() > 0,
        completes_at(c.events@, c.target as nat, c.events@.len() - 1),
        forall|k: int| completes_at(c.events@, c.target as nat, k) ==> k == c.events@.len() - 1,
{
    let e = c.events@;
    assert(e.len() > 0);
    assert(e.take(e.len() - 1) =~= e.drop_last());
    assert(e.take(e.len() as int) =~= e);
    lemma_completes_once(e, c.target as nat);
}

impl Consumer {
    pub open spec fn wf(&self) -> bool {
        &&& self.received == batch_total(self.events@)
        &&& forall|i: int| 0 <= i < self.events@.len() ==> self.events@[i].batch >= 1
        &&& self.events@.len() > 0 ==> batch_total(self.events@.drop_last()) < self.target
    }

    pub open spec fn done(&self) -> bool {
        self.received >= self.target
    }

    /// A consumer that has received nothing yet.
    pub fn new(target: usize) -> (c: Consumer)
        ensures
            c.wf(),
            c.target == target,
            c.received == 0,
            c.events@ == Seq::<RecvEvent>::empty(),
    {
        Consumer { target, received: 0, events: Vec::new() }
    }

    /// Whether the target count of messages has arrived.
    pub fn is_done(&self) -> (r: bool)
        ensures
            r == self.done(),
    {
        self.received >= self.target
    }

    /// Accounts for one drain of the transport that yielded `batch` messages
    /// at clock reading `now`. An empty drain changes nothing. Returns
    /// whether this drain completed the run, which is when the completion
    /// signal must be flipped.
    pub fn record_batch(&mut self, now: u64, batch: usize) -> (complete: bool)
        requires
            old(self).wf(),
            !old(self).done(),
            old(self).received + batch <= usize::MAX,
        ensures
            final(self).wf(),
            final(self).target == old(self).target,
            batch == 0 ==> *final(self) == *old(self) && !complete,
            batch > 0 ==> final(self).events@ == old(self).events@.push(
                RecvEvent { timestamp: now, batch },
            ),
            final(self).received == old(self).received + batch,
            complete == final(self).done(),
            complete ==> completes_at(
                final(self).events@,
                final(self).target as nat,
                final(self).events@.len() - 1,
            ),
    {
        if batch == 0 {
            return false;
        }
        let ghost before = self.events@;
        proof {
            assert(old(self).received == batch_total(before));
        }
        self.events.push(RecvEvent { timestamp: now, batch });
        self.received = self.received + batch;
        proof {
            assert(self.events@.drop_last() =~= before);
            assert(self.events@.take(self.events@.len() - 1) =~= before);
            assert(self.events@.take(self.events@.len() as int) =~= self.events@);
        }
        self.received >= self.target
    }
}

} // verus!
