use vstd::prelude::*;
use vstd::multiset::Multiset;
use vstd::string::StringExecFns;
use hdrhist::HDRHist;
use crate::correlate::{Sample, RecvEvent, correlate, correlation, latency_between};

verus! {

broadcast use vstd::seq_lib::group_to_multiset_ensures;

#[verifier::external_type_specification]
#[verifier::external_body]
pub struct ExHDRHist(hdrhist::HDRHist);

/// The value a histogram keeps for a sample: the sample itself below 32,
/// else the sample with all but its five most significant bits cleared.
/// Each bucket of the histogram holds the samples of one such value.
pub open spec fn bucket_floor(v: u64) -> u64
    decreases v,
{
    if v < 32 {
        v
    } else {
        (2 * bucket_floor(v / 2)) as u64
    }
}

/// The bucket floors of the samples added to a histogram, one per sample:
/// the bucket counts of the histogram, read as a multiset.
pub uninterp spec fn hist_samples(h: HDRHist) -> Multiset<u64>;

/// The quantile table `HDRHist::summary` yields, pretty-printed with `{:#?}`.
pub uninterp spec fn summary_table_text(samples: Multiset<u64>) -> Seq<char>;

/// The text `HDRHist::summary_string` returns.
pub uninterp spec fn summary_line_text(samples: Multiset<u64>) -> Seq<char>;

/// The points `HDRHist::ccdf` yields, one `{:?}` line each.
pub uninterp spec fn ccdf_text(samples: Multiset<u64>) -> Seq<char>;

/// Relies on `hdrhist::HDRHist::new`: a histogram with no samples.
#[verifier::external_body]
fn new_histogram() -> (h: HDRHist)
    ensures
        hist_samples(h) =~= Multiset::empty(),
{
    HDRHist::new()
}

/// Relies on `hdrhist::HDRHist::add_value`: counts one more sample in the
/// bucket of `value`. Each bucket count is a `u64`, hence the bound.
#[verifier::external_body]
fn add_value(h: &mut HDRHist, value: u64)
    requires
        hist_samples(*old(h)).len() < u64::MAX,
    ensures
        hist_samples(*final(h)) == hist_samples(*old(h)).insert(bucket_floor(value)),
{
    h.add_value(value)
}

/// Relies on `hdrhist::HDRHist::summary`: estimated quantiles of the samples.
#[verifier::external_body]
fn summary_table(h: &HDRHist) -> (r: String)
    ensures
        r@ == summary_table_text(hist_samples(*h)),
{
    format!("{:#?}", h.summary().collect::<Vec<_>>())
}

/// Relies on `hdrhist::HDRHist::summary_string`: the quantiles as text.
#[verifier::external_body]
fn summary_line(h: &HDRHist) -> (r: String)
    ensures
        r@ == summary_line_text(hist_samples(*h)),
{
    h.summary_string()
}

/// Relies on `hdrhist::HDRHist::ccdf`: the complementary cumulative
/// distribution of the samples.
#[verifier::external_body]
fn ccdf_listing(h: &HDRHist) -> (r: String)
    ensures
        r@ == ccdf_text(hist_samples(*h)),
{
    let mut s = String::new();
    for entry in h.ccdf() {
        s.push_str(&format!("{:?}\n", entry));
    }
    s
}

pub const SEPARATOR: &'static str = "\n-------------------------------------------------------------\n\n";

/// The bucket floors of the latencies of the samples.
pub open spec fn latencies(s: Seq<Sample>) -> Seq<u64> {
    s.map_values(|x: Sample| bucket_floor(x.latency))
}

/// The bucket floors of the batch sizes of the samples.
pub open spec fn batch_sizes(s: Seq<Sample>) -> Seq<u64> {
    s.map_values(|x: Sample| bucket_floor(x.batch))
}

/// The report of one histogram: quantile table, one-line summary and CCDF,
/// each section framed by separator lines.
pub open spec fn hist_report_text(samples: Multiset<u64>) -> Seq<char> {
    SEPARATOR@ + "summary:\n"@ + summary_table_text(samples) + "\n"@ + SEPARATOR@
        + "Summary_string:\n"@ + summary_line_text(samples) + "\n"@ + SEPARATOR@
        + "CDF summary:\n\n"@ + ccdf_text(samples) + SEPARATOR@
}

/// The report of a run: the latency histogram, then the batch-size histogram.
pub open spec fn run_report_text(latency: Multiset<u64>, batches: Multiset<u64>) -> Seq<char> {
    SEPARATOR@ + "VALUES HIST\n"@ + hist_report_text(latency) + "MESSAGES QUANTITY HIST\n"@
        + hist_report_text(batches)
}

/// Renders the summary, the summary string and the CCDF of a histogram.
pub fn render_hist_summary(h: &HDRHist) -> (r: String)
    ensures
        r@ == hist_report_text(hist_samples(*h)),
{
    let mut s = String::new();
    s.append(SEPARATOR);
    s.append("summary:\n");
    let table = summary_table(h);
    s.append(table.as_str());
    s.append("\n");
    s.append(SEPARATOR);
    s.append("Summary_string:\n");
    let line = summary_line(h);
    s.append(line.as_str());
    s.append("\n");
    s.append(SEPARATOR);
    s.append("CDF summary:\n\n");
    let ccdf = ccdf_listing(h);
    s.append(ccdf.as_str());
    s.append(SEPARATOR);
    s
}

/// Renders the latency histogram and the batch-size histogram of a run.
pub fn render_summary(latency: &HDRHist, batches: &HDRHist) -> (r: String)
    ensures
        r@ == run_report_text(hist_samples(*latency), hist_samples(*batches)),
{
    let mut s = String::new();
    s.append(SEPARATOR);
    s.append("VALUES HIST\n");
    let a = render_hist_summary(latency);
    s.append(a.as_str());
    s.append("MESSAGES QUANTITY HIST\n");
    let b = render_hist_summary(batches);
    s.append(b.as_str());
    s
}

/// A histogram with no samples.
pub fn empty_histogram() -> (h: HDRHist)
    ensures
        hist_samples(h) =~= Multiset::empty(),
{
    new_histogram()
}

/// Counts the clock units elapsed from `start` to `end` in the histogram,
/// `times` times (a batch of messages that share one measurement). A reading
/// `end` before `start` counts as zero.
pub fn record_elapsed(h: &mut HDRHist, start: u64, end: u64, times: usize)
    requires
        hist_samples(*old(h)).len() + times < u64::MAX,
    ensures
        hist_samples(*final(h)) == hist_samples(*old(h)).add(
            Seq::new(times as nat, |_k: int| bucket_floor(latency_between(end, start))).to_multiset(),
        ),
{
    let v: u64 = if end >= start { end - start } else { 0 };
    let ghost base = hist_samples(*h);
    let mut k: usize = 0;
    let ghost b = bucket_floor(v);
    proof {
        assert(Seq::new(0, |_k: int| b) =~= Seq::<u64>::empty());
    }
    while k < times
        invariant
            k <= times,
            b == bucket_floor(v),
            base.len() + times < u64::MAX,
            hist_samples(*h) == base.add(Seq::new(k as nat, |_k: int| b).to_multiset()),
        decreases times - k,
    {
        proof {
            assert(Seq::new((k + 1) as nat, |_k: int| b) =~= Seq::new(k as nat, |_k: int| b).push(b));
        }
        add_value(h, v);
        k = k + 1;
    }
    proof {
        assert(Seq::new(times as nat, |_k: int| b) =~= Seq::new(
            times as nat,
            |_k: int| bucket_floor(latency_between(end, start)),
        ));
    }
}

/// The outcome of a run: latency samples and the batch size each arrived
/// in, as two histograms, and how many samples were paired.
pub struct LatencyReport {
    pub latency: HDRHist,
    pub batches: HDRHist,
    pub samples: usize,
}

/// Correlates the send and receive records of a run and counts each latency
/// sample, and the batch size it arrived in, in its histogram (each in the
/// bucket of its value).
pub fn build_report(sends: &Vec<u64>, recvs: &Vec<RecvEvent>, n: usize) -> (r: LatencyReport)
    ensures
        r.samples == correlation(sends@, recvs@, n as nat).len(),
        hist_samples(r.latency) == latencies(correlation(sends@, recvs@, n as nat)).to_multiset(),
        hist_samples(r.batches) == batch_sizes(correlation(sends@, recvs@, n as nat)).to_multiset(),
{
    let samples = correlate(sends, recvs, n);
    let mut latency = new_histogram();
    let mut batches = new_histogram();
    let mut k: usize = 0;
    proof {
        assert(latencies(samples@.take(0)) =~= Seq::<u64>::empty());
        assert(batch_sizes(samples@.take(0)) =~= Seq::<u64>::empty());
    }
    while k < samples.len()
        invariant
            k <= samples.len(),
            hist_samples(latency) == latencies(samples@.take(k as int)).to_multiset(),
            hist_samples(batches) == batch_sizes(samples@.take(k as int)).to_multiset(),
        decreases samples.len() - k,
    {
        let x = samples[k];
        proof {
            assert(latencies(samples@.take(k + 1)) =~= latencies(samples@.take(k as int)).push(
                bucket_floor(x.latency),
            ));
            assert(batch_sizes(samples@.take(k + 1)) =~= batch_sizes(samples@.take(k as int)).push(
                bucket_floor(x.batch),
            ));
        }
        add_value(&mut latency, x.latency);
        add_value(&mut batches, x.batch);
        k = k + 1;
    }
    proof {
        assert(samples@.take(k as int) =~= samples@);
    }
    LatencyReport { latency, batches, samples: samples.len() }
}

/// Rendering reads nothing but the samples a histogram was fed: rendering
/// twice, or rendering two histograms fed the same samples, gives the same
/// text.
pub proof fn lemma_report_is_deterministic(a: HDRHist, b: HDRHist)
    requires
        hist_samples(a) == hist_samples(b),
    ensures
        hist_report_text(hist_samples(a)) == hist_report_text(hist_samples(b)),
{
}

} // verus!
