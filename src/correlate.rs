use vstd::prelude::*;

verus! {

/// One non-empty drain of the transport: when it happened and how many
/// logical messages it delivered.
#[derive(Clone, Copy, Debug, PartialEq, Eq, Structural)]
pub struct RecvEvent {
    pub timestamp: u64,
    pub batch: usize,
}

/// One latency sample, with the size of the batch its message arrived in.
#[derive(Clone, Copy, Debug, PartialEq, Eq, Structural)]
pub struct Sample {
    pub latency: u64,
    pub batch: u64,
}

/// Elapsed clock units from `send` to `recv`; a receive stamped before its
/// send (impossible on one monotonic clock) counts as zero.
pub open spec fn latency_between(recv: u64, send: u64) -> u64 {
    if recv >= send {
        (recv - send) as u64
    } else {
        0
    }
}

/// Sum of the batch sizes of the events.
pub open spec fn batch_total(recvs: Seq<RecvEvent>) -> nat
    decreases recvs.len(),
{
    if recvs.len() == 0 {
        0
    } else {
        batch_total(recvs.drop_last()) + recvs.last().batch as nat
    }
}

/// One entry per logical message: each event repeated as many times as its
/// batch size, in order.
pub open spec fn expand(recvs: Seq<RecvEvent>) -> Seq<RecvEvent>
    decreases recvs.len(),
{
    if recvs.len() == 0 {
        seq![]
    } else {
        let e = recvs.last();
        expand(recvs.drop_last()) + Seq::new(e.batch as nat, |_k: int| e)
    }
}

/// The least of three counts.
pub open spec fn min3(a: nat, b: nat, c: nat) -> nat {
    if a <= b && a <= c {
        a
    } else if b <= c {
        b
    } else {
        c
    }
}

/// How many samples a correlation yields: capped by the target count, the
/// recorded sends and the received messages.
pub open spec fn sample_count(sends: Seq<u64>, recvs: Seq<RecvEvent>, n: nat) -> nat {
    min3(n, sends.len(), batch_total(recvs))
}

/// The `i`-th logical message received, paired with the `i`-th send.
pub open spec fn sample_at(sends: Seq<u64>, recvs: Seq<RecvEvent>, i: int) -> Sample {
    let e = expand(recvs)[i];
    Sample { latency: latency_between(e.timestamp, sends[i]), batch: e.batch as u64 }
}

/// FIFO pairing of logical receives with sends, stopping after `n` samples
/// or when either side runs out.
pub open spec fn correlation(sends: Seq<u64>, recvs: Seq<RecvEvent>, n: nat) -> Seq<Sample> {
    Seq::new(sample_count(sends, recvs, n), |i: int| sample_at(sends, recvs, i))
}

pub proof fn lemma_expand_len(recvs: Seq<RecvEvent>)
    ensures
        expand(recvs).len() == batch_total(recvs),
    decreases recvs.len(),
{
    if recvs.len() > 0 {
        lemma_expand_len(recvs.drop_last());
    }
}

/// Expanding a prefix of the events gives a prefix of the expansion.
pub proof fn lemma_expand_prefix(recvs: Seq<RecvEvent>, j: int)
    requires
        0 <= j <= recvs.len(),
    ensures
        expand(recvs.take(j)).len() <= expand(recvs).len(),
        forall|k: int| 0 <= k < expand(recvs.take(j)).len() ==> expand(recvs.take(j))[k] == expand(recvs)[k],
    decreases recvs.len(),
{
    if j == recvs.len() {
        assert(recvs.take(j) =~= recvs);
    } else {
        let d = recvs.drop_last();
        assert(d.take(j) =~= recvs.take(j));
        lemma_expand_prefix(d, j);
    }
}

/// Expanding one more event appends that event's batch.
pub proof fn lemma_expand_step(recvs: Seq<RecvEvent>, j: int)
    requires
        0 <= j < recvs.len(),
    ensures
        expand(recvs.take(j + 1)) == expand(recvs.take(j)) + Seq::new(
            recvs[j].batch as nat,
            |_k: int| recvs[j],
        ),
{
    assert(recvs.take(j + 1).drop_last() =~= recvs.take(j));
}

/// Pairs receive events with send timestamps in FIFO order: the `i`-th
/// logical message received is matched with the `i`-th send. At most `n`
/// samples come out, and a short send sequence (a producer that failed)
/// just yields fewer.
pub fn correlate(sends: &Vec<u64>, recvs: &Vec<RecvEvent>, n: usize) -> (r: Vec<Sample>)
    ensures
        r@ == correlation(sends@, recvs@, n as nat),
{
    let mut out: Vec<Sample> = Vec::new();
    let mut i: usize = 0;
    let mut j: usize = 0;
    proof {
        lemma_expand_len(recvs@);
        lemma_expand_len(recvs@.take(0));
        lemma_expand_prefix(recvs@, 0);
    }
    while j < recvs.len() && i < n && i < sends.len()
        invariant
            0 <= j <= recvs.len(),
            i == out.len(),
            expand(recvs@).len() == batch_total(recvs@),
            i == min3(n as nat, sends@.len(), expand(recvs@.take(j as int)).len()),
            expand(recvs@.take(j as int)).len() <= expand(recvs@).len(),
            forall|k: int| 0 <= k < i ==> out@[k] == sample_at(sends@, recvs@, k),
        decreases recvs.len() - j,
    {
        let e = recvs[j];
        proof {
            lemma_expand_step(recvs@, j as int);
            lemma_expand_prefix(recvs@, j + 1);
        }
        let ghost base = expand(recvs@.take(j as int)).len();
        let mut k: usize = 0;
        while k < e.batch && i < n && i < sends.len()
            invariant
                0 <= j < recvs.len(),
                e == recvs@[j as int],
                k <= e.batch,
                i == out.len(),
                base == expand(recvs@.take(j as int)).len(),
                expand(recvs@.take(j + 1)) == expand(recvs@.take(j as int)) + Seq::new(
                    recvs@[j as int].batch as nat,
                    |_k: int| recvs@[j as int],
                ),
                forall|m: int|
                    0 <= m < expand(recvs@.take(j + 1)).len() ==> expand(recvs@.take(j + 1))[m]
                        == expand(recvs@)[m],
                i == min3(n as nat, sends@.len(), (base + k) as nat),
                forall|m: int| 0 <= m < i ==> out@[m] == sample_at(sends@, recvs@, m),
            decreases e.batch - k,
        {
            proof {
                assert(expand(recvs@.take(j + 1))[i as int] == e);
            }
            let s = sends[i];
            let lat: u64 = if e.timestamp >= s { e.timestamp - s } else { 0 };
            out.push(Sample { latency: lat, batch: e.batch as u64 });
            i = i + 1;
            k = k + 1;
        }
        j = j + 1;
    }
    proof {
        lemma_expand_prefix(recvs@, j as int);
        if j == recvs.len() {
            assert(recvs@.take(j as int) =~= recvs@);
        }
    }
    assert(out@ =~= correlation(sends@, recvs@, n as nat));
    out
}

/// No sample is lost or duplicated: the correlation holds exactly
/// `min(n, sends, received messages)` samples, the `i`-th pairing the `i`-th
/// send with the `i`-th message received. When both sides completed `n`
/// messages, there are exactly `n` samples.
pub proof fn lemma_no_lost_or_duplicated(sends: Seq<u64>, recvs: Seq<RecvEvent>, n: nat)
    ensures
        correlation(sends, recvs, n).len() == min3(n, sends.len(), batch_total(recvs)),
        sends.len() >= n && batch_total(recvs) >= n ==> correlation(sends, recvs, n).len() == n,
        forall|i: int|
            0 <= i < correlation(sends, recvs, n).len() ==> correlation(sends, recvs, n)[i]
                == sample_at(sends, recvs, i),
{
    lemma_expand_len(recvs);
}

/// An empty or short send record (a producer that failed) still correlates:
/// no sample is paired beyond the sends that exist, and none with no sends.
pub proof fn lemma_short_sends(sends: Seq<u64>, recvs: Seq<RecvEvent>, n: nat)
    ensures
        correlation(sends, recvs, n).len() <= sends.len(),
        sends.len() == 0 ==> correlation(sends, recvs, n).len() == 0,
{
}

} // verus!
