use zerg::{finish_run, BenchmarkResult, Outcome};

const MS: u64 = 1_000_000;

fn filled(outcome: Outcome, count: usize, latency: u64) -> BenchmarkResult {
    let mut r = BenchmarkResult::new();
    for _ in 0..count {
        r.record(outcome, latency);
    }
    r
}

fn sample() -> (BenchmarkResult, BenchmarkResult, BenchmarkResult) {
    let mut a = BenchmarkResult::new();
    a.record(Outcome::Success, 5 * MS);
    a.record(Outcome::HttpError, 9 * MS);
    let mut b = BenchmarkResult::new();
    b.record(Outcome::TcpError, 2 * MS);
    let mut c = BenchmarkResult::new();
    c.record(Outcome::Success, 30 * MS);
    c.record(Outcome::Success, 1 * MS);
    c.record(Outcome::TcpError, 7 * MS);
    (a, b, c)
}

fn sorted(r: &BenchmarkResult) -> Vec<u64> {
    let mut v = r.timings().to_vec();
    v.sort();
    v
}

fn same(x: &BenchmarkResult, y: &BenchmarkResult) {
    assert_eq!(x.success_count(), y.success_count());
    assert_eq!(x.http_error_count(), y.http_error_count());
    assert_eq!(x.tcp_error_count(), y.tcp_error_count());
    assert_eq!(x.total_time(), y.total_time());
    assert_eq!(x.min_time(), y.min_time());
    assert_eq!(x.max_time(), y.max_time());
    assert_eq!(sorted(x), sorted(y));
}

#[test]
fn empty_record_is_identity_element() {
    let r = BenchmarkResult::default();
    assert_eq!(r.success_count(), 0);
    assert_eq!(r.http_error_count(), 0);
    assert_eq!(r.tcp_error_count(), 0);
    assert_eq!(r.total_time(), 0);
    assert_eq!(r.min_time(), u64::MAX);
    assert_eq!(r.max_time(), 0);
    assert!(r.timings().is_empty());
}

#[test]
fn record_counts_each_outcome_and_times_it() {
    let (a, _, c) = sample();
    assert_eq!(a.success_count(), 1);
    assert_eq!(a.http_error_count(), 1);
    assert_eq!(a.tcp_error_count(), 0);
    assert_eq!(a.timings(), &[5 * MS, 9 * MS]);
    assert_eq!(a.total_time(), 9 * MS);
    assert_eq!(a.min_time(), 5 * MS);
    assert_eq!(a.max_time(), 9 * MS);
    assert_eq!(c.min_time(), 1 * MS);
    assert_eq!(c.max_time(), 30 * MS);
    assert_eq!(c.total_time(), 7 * MS);
}

#[test]
fn outcome_from_verdict() {
    assert_eq!(Outcome::from_verdict(None), Outcome::TcpError);
    assert_eq!(Outcome::from_verdict(Some(true)), Outcome::Success);
    assert_eq!(Outcome::from_verdict(Some(false)), Outcome::HttpError);
}

#[test]
fn merge_is_associative() {
    let (a, b, c) = sample();
    let left = a.clone().add(b.clone()).add(c.clone());
    let right = a.add(b.add(c));
    same(&left, &right);
    assert_eq!(left.timings(), right.timings());
}

#[test]
fn merge_is_commutative() {
    let (a, b, c) = sample();
    let abc = a.clone().add(b.clone()).add(c.clone());
    let acb = a.clone().add(c.clone()).add(b.clone());
    same(&abc, &acb);
    same(&a.clone().add(c.clone()), &c.add(a));
}

#[test]
fn merge_with_identity() {
    let (a, _, _) = sample();
    let right = a.clone().add(BenchmarkResult::new());
    let left = BenchmarkResult::new().add(a.clone());
    same(&right, &a);
    same(&left, &a);
    assert_eq!(right.timings(), a.timings());
}

#[test]
fn merged_timings_count_every_attempt() {
    let (a, b, c) = sample();
    let m = BenchmarkResult::sum(vec![a, b, c]);
    assert_eq!(m.timings().len(), m.success_count() + m.http_error_count() + m.tcp_error_count());
    assert_eq!(m.timings().len(), 6);
    assert_eq!(m.attempt_count(), 6);
    assert_eq!(m.total_time(), 9 * MS + 2 * MS + 7 * MS);
    assert_eq!(m.timings(), &[5 * MS, 9 * MS, 2 * MS, 30 * MS, 1 * MS, 7 * MS]);
}

#[test]
fn total_request_count_excludes_tcp_errors() {
    let (a, b, c) = sample();
    let m = a.add(b).add(c);
    assert_eq!(m.total_request_count(), 4);
    assert_eq!(m.total_request_count(), m.success_count() + m.http_error_count());
}

#[test]
fn fixed_latency_successes() {
    let r = filled(Outcome::Success, 20, 10 * MS);
    assert_eq!(r.success_count(), 20);
    assert_eq!(r.http_error_count(), 0);
    assert_eq!(r.tcp_error_count(), 0);
    assert_eq!(r.min_time(), 10 * MS);
    assert_eq!(r.max_time(), 10 * MS);
}

#[test]
fn transport_failures_only() {
    let r = filled(Outcome::TcpError, 7, 3 * MS);
    assert_eq!(r.tcp_error_count(), 7);
    assert_eq!(r.attempt_count(), 7);
    assert_eq!(r.success_count(), 0);
    assert_eq!(r.http_error_count(), 0);
    assert_eq!(r.total_request_count(), 0);
    assert_eq!(r.timings().len(), 7);
}

#[test]
fn classifier_always_rejects() {
    let r = filled(Outcome::HttpError, 4, 3 * MS);
    assert_eq!(r.http_error_count(), r.attempt_count());
    assert_eq!(r.success_count(), 0);
    assert_eq!(r.tcp_error_count(), 0);
}

#[test]
fn merge_success_with_tcp_errors() {
    let ok = filled(Outcome::Success, 5, 4 * MS);
    let bad = filled(Outcome::TcpError, 3, 8 * MS);
    let m = ok.add(bad);
    assert_eq!(m.success_count(), 5);
    assert_eq!(m.tcp_error_count(), 3);
    assert_eq!(m.total_request_count(), 5);
    assert_eq!(m.min_time(), 4 * MS);
    assert_eq!(m.max_time(), 8 * MS);
}

#[test]
fn add_assign_merges_in_place() {
    let (mut a, b, _) = sample();
    a.add_assign(b);
    assert_eq!(a.attempt_count(), 3);
    assert_eq!(a.timings(), &[5 * MS, 9 * MS, 2 * MS]);
    assert_eq!(a.min_time(), 2 * MS);
    assert_eq!(a.total_time(), 11 * MS);
}

#[test]
fn fits_detects_counter_overflow() {
    let (a, b, _) = sample();
    assert!(a.fits(&b));
    let mut long = BenchmarkResult::new();
    long.record(Outcome::Success, u64::MAX - 1);
    let mut short = BenchmarkResult::new();
    short.record(Outcome::Success, 2);
    assert!(!long.fits(&short));
}

#[test]
fn finish_run_takes_wall_clock_time() {
    let (a, b, c) = sample();
    let r = finish_run(vec![a, b, c], 200 * MS).unwrap();
    assert_eq!(r.total_time(), 200 * MS);
    assert_eq!(r.total_time_millis(), 200);
    assert_eq!(r.attempt_count(), 6);
    assert_eq!(r.min_time(), 1 * MS);
    assert_eq!(r.max_time(), 30 * MS);
}

#[test]
fn finish_run_of_nothing() {
    let r = finish_run(Vec::new(), 5 * MS).unwrap();
    assert_eq!(r.total_time(), 5 * MS);
    assert_eq!(r.attempt_count(), 0);
    assert_eq!(r.min_time(), u64::MAX);
}

#[test]
fn set_total_time_replaces_elapsed() {
    let (mut a, _, _) = sample();
    a.set_total_time(1_234_567_890);
    assert_eq!(a.total_time(), 1_234_567_890);
    assert_eq!(a.total_time_millis(), 1_234);
    assert_eq!(a.attempt_count(), 2);
}

#[test]
fn checked_sum_merges_in_order() {
    let (a, b, c) = sample();
    let m = BenchmarkResult::checked_sum(vec![a, b, c]).unwrap();
    assert_eq!(m.attempt_count(), 6);
    assert_eq!(m.timings(), &[5 * MS, 9 * MS, 2 * MS, 30 * MS, 1 * MS, 7 * MS]);
    assert_eq!(m.total_time(), 18 * MS);
}

#[test]
fn checked_sum_refuses_overflowing_durations() {
    let long = filled(Outcome::Success, 1, u64::MAX - 1);
    let short = filled(Outcome::Success, 1, 2);
    assert!(BenchmarkResult::checked_sum(vec![long.clone(), short.clone()]).is_none());
    assert!(finish_run(vec![long.clone(), short], 5).is_none());
    assert!(BenchmarkResult::checked_sum(vec![long]).is_some());
}

#[test]
fn sum_of_a_permutation_has_the_same_statistics() {
    let (a, b, c) = sample();
    let x = BenchmarkResult::sum(vec![a.clone(), b.clone(), c.clone()]);
    let y = BenchmarkResult::sum(vec![c, a, b]);
    same(&x, &y);
}
