//! The decisions of the driver: how concurrency is split over execution
//! contexts, what the default classifier accepts, and how the contexts'
//! records become the record of the run.
use vstd::prelude::*;

use crate::result::{all_fit, all_wf, merge_all, BenchmarkResult, ResultModel};

verus! {

/// Nanoseconds in one second.
pub const NANOS_PER_SECOND: u64 = 1_000_000_000;

/// The shape of a run: its duration in nanoseconds, the number of execution
/// contexts and the total concurrency asked for.
#[derive(Clone, Copy, Debug, PartialEq, Eq, Structural)]
pub struct BenchmarkConfig {
    pub duration_nanos: u64,
    pub threads: usize,
    pub concurrency: usize,
}

impl BenchmarkConfig {
    /// Request loops run by each execution context: the concurrency divided
    /// by the number of contexts, rounded down.
    pub fn per_context_concurrency(&self) -> (r: usize)
        requires
            self.threads > 0,
        ensures
            r == self.concurrency / self.threads,
    {
        self.concurrency / self.threads
    }

    /// Nanoseconds still to wait before the run may stop, after `elapsed`
    /// nanoseconds of it; zero exactly when the configured duration has passed.
    pub fn remaining_nanos(&self, elapsed: u64) -> (r: u64)
        ensures
            r == 0 <==> elapsed >= self.duration_nanos,
            elapsed < self.duration_nanos ==> r == self.duration_nanos - elapsed,
    {
        if elapsed >= self.duration_nanos {
            0
        } else {
            self.duration_nanos - elapsed
        }
    }

    /// Request loops run over all contexts; the remainder of the division is
    /// not realized.
    pub fn realized_concurrency(&self) -> (r: usize)
        requires
            self.threads > 0,
        ensures
            r == self.threads * (self.concurrency / self.threads),
            r <= self.concurrency,
    {
        let m = self.per_context_concurrency();
        proof {
            law_realized_concurrency(self.concurrency as nat, self.threads as nat);
        }
        self.threads * m
    }
}

impl Default for BenchmarkConfig {
    /// One second, one execution context, a concurrency of one hundred.
    fn default() -> (r: BenchmarkConfig)
        ensures
            r.duration_nanos == NANOS_PER_SECOND,
            r.threads == 1,
            r.concurrency == 100,
    {
        BenchmarkConfig { duration_nanos: NANOS_PER_SECOND, threads: 1, concurrency: 100 }
    }
}

/// The realized concurrency never exceeds the one asked for, and falls short
/// of it by less than the number of contexts.
pub proof fn law_realized_concurrency(concurrency: nat, threads: nat)
    requires
        threads > 0,
    ensures
        threads * (concurrency / threads) <= concurrency,
        concurrency - threads * (concurrency / threads) < threads,
{
    assert(threads * (concurrency / threads) + concurrency % threads == concurrency) by (nonlinear_arith)
        requires threads > 0;
    assert(concurrency % threads < threads) by (nonlinear_arith)
        requires threads > 0;
}

/// The default classifier: a status in the success or redirection class.
pub fn is_success_status(status: u16) -> (r: bool)
    ensures
        r == (200 <= status && status <= 399),
{
    200 <= status && status <= 399
}

/// The record of a run: the records of the execution contexts that
/// completed, merged in order, with the elapsed time replaced by the run's
/// wall-clock duration in nanoseconds; `None` when a counter of the merge
/// would overflow.
pub fn finish_run(results: Vec<BenchmarkResult>, wall_nanos: u64) -> (r: Option<BenchmarkResult>)
    requires
        all_wf(results@),
    ensures
        r is Some <==> all_fit(results@),
        r matches Some(m) ==> m.wf() && m@ == (ResultModel {
            elapsed: wall_nanos as nat,
            ..merge_all(results@)
        }),
{
    match BenchmarkResult::checked_sum(results) {
        Some(total) => {
            let mut total = total;
            total.set_total_time(wall_nanos);
            Some(total)
        },
        None => None,
    }
}

} // verus!
