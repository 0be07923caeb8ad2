use vstd::prelude::*;
use crate::pacer::{Pacer, interval_for, lemma_pacing_accuracy};

verus! {

/// What the sending loop does on one polling tick.
#[derive(Clone, Copy, Debug, PartialEq, Eq, Structural)]
pub enum ProducerAction {
    /// A send is due: try to place one message in the transport.
    Send,
    /// Nothing is due yet: poll again.
    Wait,
    /// The run is over: stop sending.
    Stop,
}

/// When the sending loop ends.
#[derive(Clone, Copy, Debug, PartialEq, Eq, Structural)]
pub enum StopPolicy {
    /// When the consumer signals that it received the target count.
    OnCompletionSignal,
    /// As soon as the producer itself has sent the target count.
    AfterTarget,
}

/// The sending side of a run: paced sends, with the timestamps of the first
/// `target` successful ones.
pub struct Producer {
    pub pacer: Pacer,
    pub target: usize,
    pub sent: usize,
    pub stamps: Vec<u64>,
    pub policy: StopPolicy,
}

pub open spec fn min_nat(a: nat, b: nat) -> nat {
    if a <= b {
        a
    } else {
        b
    }
}

impl Producer {
    pub open spec fn wf(&self) -> bool {
        &&& self.pacer.wf()
        &&& self.stamps@.len() == min_nat(self.sent as nat, self.target as nat)
        &&& self.sent == min_nat(self.pacer.fired@, usize::MAX as nat)
        &&& forall|k: int|
            0 <= k < self.stamps@.len() ==> #[trigger] self.stamps@[k] >= self.pacer.start@ + (k + 1)
                * self.pacer.interval
    }

    /// The decision for a tick at clock reading `now`, given whether the
    /// consumer is still active.
    pub open spec fn action_at(&self, now: u64, receiver_active: bool) -> ProducerAction {
        if !receiver_active {
            ProducerAction::Stop
        } else if self.policy == StopPolicy::AfterTarget && self.sent >= self.target {
            ProducerAction::Stop
        } else if self.pacer.is_due_at(now) {
            ProducerAction::Send
        } else {
            ProducerAction::Wait
        }
    }

    /// A producer whose schedule starts at clock reading `now`, sending
    /// `frequency` messages per `clock_rate` clock units.
    pub fn new(target: usize, clock_rate: u64, frequency: u64, now: u64, policy: StopPolicy) -> (p:
        Producer)
        requires
            frequency > 0,
        ensures
            p.wf(),
            p.target == target,
            p.sent == 0,
            p.stamps@ == Seq::<u64>::empty(),
            p.policy == policy,
            p.pacer.interval == interval_for(clock_rate, frequency),
            p.pacer.scheduled == now,
            p.pacer.fired@ == 0,
    {
        let pacer = Pacer::new(clock_rate, frequency, now);
        Producer { pacer, target, sent: 0, stamps: Vec::with_capacity(target), policy }
    }

    /// Decides a tick: stop once the consumer is inactive (or, under
    /// `AfterTarget`, once the target was sent), send when the pacer is
    /// due, else wait.
    pub fn poll(&self, now: u64, receiver_active: bool) -> (a: ProducerAction)
        ensures
            a == self.action_at(now, receiver_active),
    {
        if !receiver_active {
            ProducerAction::Stop
        } else if self.policy == StopPolicy::AfterTarget && self.sent >= self.target {
            ProducerAction::Stop
        } else if self.pacer.is_due(now) {
            ProducerAction::Send
        } else {
            ProducerAction::Wait
        }
    }

    /// Accounts for a message that the transport accepted on a tick at
    /// clock reading `t0`: its timestamp is kept while fewer than `target`
    /// are kept, and the schedule advances by one interval. A send that the
    /// transport refused is not reported, so it neither records nor
    /// advances.
    pub fn on_sent(&mut self, t0: u64)
        requires
            old(self).wf(),
            old(self).pacer.is_due_at(t0),
        ensures
            final(self).wf(),
            final(self).target == old(self).target,
            final(self).policy == old(self).policy,
            final(self).sent == if old(self).sent < usize::MAX {
                old(self).sent + 1
            } else {
                old(self).sent as int
            },
            final(self).stamps@ == if old(self).stamps@.len() < old(self).target {
                old(self).stamps@.push(t0)
            } else {
                old(self).stamps@
            },
            final(self).pacer.interval == old(self).pacer.interval,
            final(self).pacer.start == old(self).pacer.start,
            final(self).pacer.scheduled == old(self).pacer.scheduled + old(self).pacer.interval,
            final(self).pacer.fired@ == old(self).pacer.fired@ + 1,
    {
        if self.stamps.len() < self.target {
            proof {
                let k = self.stamps@.len() as int;
                let iv = self.pacer.interval as int;
                assert(k == self.pacer.fired@);
                assert(self.pacer.start@ + (k + 1) * iv == self.pacer.start@ + k * iv + iv)
                    by (nonlinear_arith);
            }
            self.stamps.push(t0);
        }
        self.sent = self.sent.saturating_add(1);
        self.pacer.advance(t0);
    }
}

/// Every recorded send went out at or after its slot: the `k`-th stamp
/// (counting from one) is no earlier than `start + k * interval`.
pub proof fn lemma_stamps_follow_schedule(p: Producer, k: int)
    requires
        p.wf(),
        1 <= k <= p.stamps@.len(),
    ensures
        p.stamps@[k - 1] >= p.pacer.start@ + k * p.pacer.interval,
{
    assert(p.stamps@[k - 1] >= p.pacer.start@ + ((k - 1) + 1) * p.pacer.interval);
}

/// Pacing accuracy of a run without backpressure: at a clock reading where
/// no send is due, the producer has had exactly `(now - start) / interval`
/// sends accepted (the count saturating at `usize::MAX`).
pub proof fn lemma_sends_match_schedule(p: Producer, now: u64)
    requires
        p.wf(),
        p.pacer.scheduled <= now,
        !p.pacer.is_due_at(now),
        p.pacer.interval > 0,
    ensures
        p.sent == min_nat(
            ((now - p.pacer.start@) / (p.pacer.interval as int)) as nat,
            usize::MAX as nat,
        ),
{
    lemma_pacing_accuracy(p.pacer, now);
}

} // verus!
