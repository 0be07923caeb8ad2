use mergequeue_benchmarker::correlate::{correlate, RecvEvent, Sample};
use mergequeue_benchmarker::histogram::{build_report, render_hist_summary, render_summary};

fn ev(timestamp: u64, batch: usize) -> RecvEvent {
    RecvEvent { timestamp, batch }
}

#[test]
fn fifo_pairing_single_batch() {
    let sends = vec![10u64, 20, 30];
    let recvs = vec![ev(100, 3)];
    let r = correlate(&sends, &recvs, 3);
    assert_eq!(
        r,
        vec![
            Sample { latency: 90, batch: 3 },
            Sample { latency: 80, batch: 3 },
            Sample { latency: 70, batch: 3 },
        ]
    );
}

#[test]
fn pairing_across_batches() {
    let sends = vec![1u64, 2, 3, 4];
    let recvs = vec![ev(5, 1), ev(9, 2), ev(10, 1)];
    let r = correlate(&sends, &recvs, 4);
    let lat: Vec<u64> = r.iter().map(|s| s.latency).collect();
    let bat: Vec<u64> = r.iter().map(|s| s.batch).collect();
    assert_eq!(lat, vec![4, 7, 6, 6]);
    assert_eq!(bat, vec![1, 2, 2, 1]);
}

#[test]
fn sample_count_is_minimum_of_three() {
    let sends: Vec<u64> = (0..10).collect();
    let recvs = vec![ev(100, 4), ev(200, 4)];
    assert_eq!(correlate(&sends, &recvs, 20).len(), 8);
    assert_eq!(correlate(&sends, &recvs, 5).len(), 5);
    let short: Vec<u64> = (0..3).collect();
    assert_eq!(correlate(&short, &recvs, 20).len(), 3);
}

#[test]
fn full_run_gives_exactly_n_samples() {
    let sends: Vec<u64> = (0..50).map(|i| i * 10).collect();
    let recvs: Vec<RecvEvent> = (0..50).map(|i| ev(i * 10 + 3, 1)).collect();
    let r = correlate(&sends, &recvs, 50);
    assert_eq!(r.len(), 50);
    assert!(r.iter().all(|s| s.latency == 3 && s.batch == 1));
}

#[test]
fn trailing_sends_are_discarded() {
    let sends = vec![1u64, 2, 3, 4, 5];
    let recvs = vec![ev(10, 2), ev(20, 3)];
    let r = correlate(&sends, &recvs, 2);
    assert_eq!(r, vec![Sample { latency: 9, batch: 2 }, Sample { latency: 8, batch: 2 }]);
}

#[test]
fn empty_sends_degrade_gracefully() {
    let sends: Vec<u64> = Vec::new();
    let recvs = vec![ev(10, 2), ev(20, 3)];
    assert!(correlate(&sends, &recvs, 5).is_empty());
    let report = build_report(&sends, &recvs, 5);
    assert_eq!(report.samples, 0);
    assert_eq!(report.latency.ccdf().count(), 0);
}

#[test]
fn empty_recvs_and_zero_target() {
    let sends = vec![1u64, 2];
    assert!(correlate(&sends, &Vec::new(), 2).is_empty());
    assert!(correlate(&sends, &vec![ev(5, 2)], 0).is_empty());
}

#[test]
fn receive_before_send_counts_as_zero() {
    let r = correlate(&vec![50u64], &vec![ev(40, 1)], 1);
    assert_eq!(r, vec![Sample { latency: 0, batch: 1 }]);
}

#[test]
fn report_feeds_both_histograms() {
    let sends = vec![10u64, 20, 30];
    let recvs = vec![ev(100, 3)];
    let report = build_report(&sends, &recvs, 3);
    assert_eq!(report.samples, 3);
    let lat_total: u64 = report.latency.ccdf().map(|(_, _, c)| c).sum();
    let bat_total: u64 = report.batches.ccdf().map(|(_, _, c)| c).sum();
    assert_eq!(lat_total, 3);
    assert_eq!(bat_total, 3);
    let max = report.latency.summary().last().unwrap();
    assert!(max.1 <= 90 && 90 < max.2);
}

#[test]
fn rendering_twice_is_identical() {
    let sends = vec![10u64, 20, 30, 40];
    let recvs = vec![ev(100, 1), ev(120, 3)];
    let report = build_report(&sends, &recvs, 4);
    let a = render_hist_summary(&report.latency);
    let b = render_hist_summary(&report.latency);
    assert_eq!(a, b);
    let c = render_summary(&report.latency, &report.batches);
    let d = render_summary(&report.latency, &report.batches);
    assert_eq!(c, d);
}

#[test]
fn rendered_report_holds_every_section() {
    let report = build_report(&vec![10u64, 20], &vec![ev(100, 2)], 2);
    let text = render_hist_summary(&report.latency);
    assert!(text.starts_with("\n-----"));
    assert!(text.contains("summary:\n["));
    assert!(text.contains("Summary_string:\n"));
    assert!(text.contains(&report.latency.summary_string()));
    assert!(text.contains("CDF summary:\n\n("));
    let both = render_summary(&report.latency, &report.batches);
    let v = both.find("VALUES HIST").unwrap();
    let m = both.find("MESSAGES QUANTITY HIST").unwrap();
    assert!(v < m);
}
