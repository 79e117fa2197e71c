//! The mergeable record of a benchmark run and its algebra.
//!
//! Durations are counted in whole nanoseconds. The smallest latency of a
//! record that holds no sample is `u64::MAX`, which stands for "+infinity"
//! and is the identity of `min`.
use vstd::prelude::*;
use vstd::seq_lib::lemma_multiset_commutative;

verus! {

/// The smallest of the samples, `u64::MAX` when there are none.
pub open spec fn seq_min(s: Seq<u64>) -> u64
    decreases s.len(),
{
    if s.len() == 0 {
        u64::MAX
    } else {
        min_u64(seq_min(s.drop_last()), s.last())
    }
}

/// The largest of the samples, `0` when there are none.
pub open spec fn seq_max(s: Seq<u64>) -> u64
    decreases s.len(),
{
    if s.len() == 0 {
        0
    } else {
        max_u64(seq_max(s.drop_last()), s.last())
    }
}

pub open spec fn min_u64(a: u64, b: u64) -> u64 {
    if a <= b {
        a
    } else {
        b
    }
}

pub open spec fn max_u64(a: u64, b: u64) -> u64 {
    if a >= b {
        a
    } else {
        b
    }
}

/// What a request attempt came to.
#[derive(Clone, Copy, Debug, PartialEq, Eq, Structural)]
pub enum Outcome {
    /// The transport succeeded and the classifier accepted the response.
    Success,
    /// The transport succeeded and the classifier rejected the response.
    HttpError,
    /// The transport failed before a response was obtained.
    TcpError,
}

impl Outcome {
    /// The outcome of one attempt: `None` when the transport failed, else the
    /// classifier's verdict on the response.
    pub fn from_verdict(verdict: Option<bool>) -> (r: Outcome)
        ensures
            r == (match verdict {
                None => Outcome::TcpError,
                Some(true) => Outcome::Success,
                Some(false) => Outcome::HttpError,
            }),
    {
        match verdict {
            None => Outcome::TcpError,
            Some(accepted) => {
                if accepted {
                    Outcome::Success
                } else {
                    Outcome::HttpError
                }
            },
        }
    }
}

/// The mathematical content of a [`BenchmarkResult`].
pub struct ResultModel {
    pub success: nat,
    pub http_error: nat,
    pub tcp_error: nat,
    pub elapsed: nat,
    pub min_time: u64,
    pub max_time: u64,
    pub timings: Seq<u64>,
}

impl ResultModel {
    /// The record of a loop that has not issued any request yet.
    pub open spec fn identity() -> ResultModel {
        ResultModel {
            success: 0,
            http_error: 0,
            tcp_error: 0,
            elapsed: 0,
            min_time: u64::MAX,
            max_time: 0,
            timings: Seq::empty(),
        }
    }

    /// Counts and elapsed times add, extrema combine, samples concatenate.
    pub open spec fn merge(self, other: ResultModel) -> ResultModel {
        ResultModel {
            success: self.success + other.success,
            http_error: self.http_error + other.http_error,
            tcp_error: self.tcp_error + other.tcp_error,
            elapsed: self.elapsed + other.elapsed,
            min_time: min_u64(self.min_time, other.min_time),
            max_time: max_u64(self.max_time, other.max_time),
            timings: self.timings + other.timings,
        }
    }

    /// The record after one more attempt that took `latency` nanoseconds.
    pub open spec fn recorded(self, outcome: Outcome, latency: u64) -> ResultModel {
        ResultModel {
            success: if outcome == Outcome::Success { self.success + 1 } else { self.success },
            http_error: if outcome == Outcome::HttpError {
                self.http_error + 1
            } else {
                self.http_error
            },
            tcp_error: if outcome == Outcome::TcpError {
                self.tcp_error + 1
            } else {
                self.tcp_error
            },
            elapsed: latency as nat,
            min_time: min_u64(self.min_time, latency),
            max_time: max_u64(self.max_time, latency),
            timings: self.timings.push(latency),
        }
    }

    /// Every attempt, whatever its outcome.
    pub open spec fn attempts(self) -> nat {
        self.success + self.http_error + self.tcp_error
    }

    /// The requests that reached the server.
    pub open spec fn reached(self) -> nat {
        self.success + self.http_error
    }

    /// One sample per attempt, and the extrema are those of the samples.
    pub open spec fn wf(self) -> bool {
        &&& self.timings.len() == self.attempts()
        &&& self.min_time == seq_min(self.timings)
        &&& self.max_time == seq_max(self.timings)
    }

    /// Equal in every count, time and extremum, and in the samples taken as
    /// a multiset (their order is not significant).
    pub open spec fn same_stats(self, other: ResultModel) -> bool {
        &&& self.success == other.success
        &&& self.http_error == other.http_error
        &&& self.tcp_error == other.tcp_error
        &&& self.elapsed == other.elapsed
        &&& self.min_time == other.min_time
        &&& self.max_time == other.max_time
        &&& self.timings.to_multiset() == other.timings.to_multiset()
    }
}

/// The record of a run, or of a part of it: outcome counts, elapsed time,
/// latency extrema and one latency sample per attempt.
#[derive(Debug, Clone)]
pub struct BenchmarkResult {
    pub(crate) success: usize,
    pub(crate) http_error: usize,
    pub(crate) tcp_error: usize,
    pub(crate) elapsed: u64,
    pub(crate) min_time: u64,
    pub(crate) max_time: u64,
    pub(crate) timings: Vec<u64>,
}

impl View for BenchmarkResult {
    type V = ResultModel;

    closed spec fn view(&self) -> ResultModel {
        ResultModel {
            success: self.success as nat,
            http_error: self.http_error as nat,
            tcp_error: self.tcp_error as nat,
            elapsed: self.elapsed as nat,
            min_time: self.min_time,
            max_time: self.max_time,
            timings: self.timings@,
        }
    }
}

/// The model of the merge of the records of `s`, in order, ending with the
/// identity.
pub open spec fn merge_all(s: Seq<BenchmarkResult>) -> ResultModel
    decreases s.len(),
{
    if s.len() == 0 {
        ResultModel::identity()
    } else {
        s[0]@.merge(merge_all(s.drop_first()))
    }
}

/// Every record of `s` is well formed.
pub open spec fn all_wf(s: Seq<BenchmarkResult>) -> bool {
    forall|i: int| 0 <= i < s.len() ==> (#[trigger] s[i]).wf()
}

/// Merging every record of `s` overflows no counter.
pub open spec fn all_fit(s: Seq<BenchmarkResult>) -> bool {
    &&& merge_all(s).attempts() <= usize::MAX
    &&& merge_all(s).elapsed <= u64::MAX
}

pub proof fn lemma_seq_min_concat(a: Seq<u64>, b: Seq<u64>)
    ensures
        seq_min(a + b) == min_u64(seq_min(a), seq_min(b)),
        seq_max(a + b) == max_u64(seq_max(a), seq_max(b)),
    decreases b.len(),
{
    if b.len() == 0 {
        assert(a + b =~= a);
    } else {
        assert((a + b).drop_last() =~= a + b.drop_last());
        lemma_seq_min_concat(a, b.drop_last());
    }
}

/// A merge of well-formed records is well formed: in particular it holds one
/// sample per attempt, successes, HTTP errors and transport errors alike.
pub proof fn law_merge_keeps_wf(a: ResultModel, b: ResultModel)
    requires
        a.wf(),
        b.wf(),
    ensures
        a.merge(b).wf(),
{
    lemma_seq_min_concat(a.timings, b.timings);
}

proof fn lemma_merge_all_bounds(s: Seq<BenchmarkResult>, k: int)
    requires
        0 <= k <= s.len(),
    ensures
        merge_all(s.subrange(k, s.len() as int)).attempts() <= merge_all(s).attempts(),
        merge_all(s.subrange(k, s.len() as int)).elapsed <= merge_all(s).elapsed,
    decreases k,
{
    if k == 0 {
        assert(s.subrange(0, s.len() as int) =~= s);
    } else {
        lemma_merge_all_bounds(s, k - 1);
        assert(s.subrange(k - 1, s.len() as int).drop_first() =~= s.subrange(k, s.len() as int));
    }
}

impl BenchmarkResult {
    pub open spec fn wf(&self) -> bool {
        &&& self@.wf()
        &&& self@.attempts() <= usize::MAX
        &&& self@.elapsed <= u64::MAX
    }

    /// Merging `self` and `other` overflows no counter.
    pub open spec fn fits_with(&self, other: &BenchmarkResult) -> bool {
        &&& self@.attempts() + other@.attempts() <= usize::MAX
        &&& self@.elapsed + other@.elapsed <= u64::MAX
    }

    /// The empty record: no attempts, no elapsed time, extrema at their
    /// identities.
    pub fn new() -> (r: BenchmarkResult)
        ensures
            r@ == ResultModel::identity(),
            r.wf(),
    {
        let r = BenchmarkResult {
            success: 0,
            http_error: 0,
            tcp_error: 0,
            elapsed: 0,
            min_time: u64::MAX,
            max_time: 0,
            timings: Vec::new(),
        };
        assert(r.timings@ =~= Seq::<u64>::empty());
        r
    }

    /// Requests that reached the server: successes and HTTP errors, not
    /// transport errors.
    pub fn total_request_count(&self) -> (r: usize)
        requires
            self.wf(),
        ensures
            r == self@.reached(),
    {
        self.success + self.http_error
    }

    /// Every attempt: successes, HTTP errors and transport errors.
    pub fn attempt_count(&self) -> (r: usize)
        requires
            self.wf(),
        ensures
            r == self@.attempts(),
    {
        self.success + self.http_error + self.tcp_error
    }

    pub fn success_count(&self) -> (r: usize)
        ensures
            r == self@.success,
    {
        self.success
    }

    pub fn http_error_count(&self) -> (r: usize)
        ensures
            r == self@.http_error,
    {
        self.http_error
    }

    pub fn tcp_error_count(&self) -> (r: usize)
        ensures
            r == self@.tcp_error,
    {
        self.tcp_error
    }

    /// The elapsed time in nanoseconds.
    pub fn total_time(&self) -> (r: u64)
        ensures
            r == self@.elapsed,
    {
        self.elapsed
    }

    /// The elapsed time in whole milliseconds.
    pub fn total_time_millis(&self) -> (r: u64)
        ensures
            r == self@.elapsed / 1_000_000,
    {
        self.elapsed / 1_000_000
    }

    /// The smallest latency in nanoseconds, `u64::MAX` when nothing was timed.
    pub fn min_time(&self) -> (r: u64)
        ensures
            r == self@.min_time,
    {
        self.min_time
    }

    /// The largest latency in nanoseconds, `0` when nothing was timed.
    pub fn max_time(&self) -> (r: u64)
        ensures
            r == self@.max_time,
    {
        self.max_time
    }

    /// The latency of every attempt, in nanoseconds.
    pub fn timings(&self) -> (r: &[u64])
        ensures
            r@ == self@.timings,
    {
        self.timings.as_slice()
    }

    /// Replaces the elapsed time, in nanoseconds.
    pub fn set_total_time(&mut self, nanos: u64)
        requires
            old(self).wf(),
        ensures
            final(self).wf(),
            final(self)@ == (ResultModel { elapsed: nanos as nat, ..old(self)@ }),
    {
        self.elapsed = nanos;
    }

    /// Whether merging `self` and `other` stays within the counters' range.
    pub fn fits(&self, other: &BenchmarkResult) -> (r: bool)
        requires
            self.wf(),
            other.wf(),
        ensures
            r == self.fits_with(other),
    {
        let a = self.attempt_count();
        let b = other.attempt_count();
        a <= usize::MAX - b && self.elapsed <= u64::MAX - other.elapsed
    }

    /// Counts one more attempt that took `latency` nanoseconds.
    pub fn record(&mut self, outcome: Outcome, latency: u64)
        requires
            old(self).wf(),
            old(self)@.attempts() < usize::MAX,
        ensures
            final(self).wf(),
            final(self)@ == old(self)@.recorded(outcome, latency),
    {
        match outcome {
            Outcome::Success => self.success = self.success + 1,
            Outcome::HttpError => self.http_error = self.http_error + 1,
            Outcome::TcpError => self.tcp_error = self.tcp_error + 1,
        }
        self.elapsed = latency;
        self.timings.push(latency);
        if latency < self.min_time {
            self.min_time = latency;
        }
        if latency > self.max_time {
            self.max_time = latency;
        }
        proof {
            assert(self.timings@.drop_last() =~= old(self).timings@);
        }
    }

    /// Merges `rhs` into `self`.
    pub fn add_assign(&mut self, rhs: BenchmarkResult)
        requires
            old(self).wf(),
            rhs.wf(),
            old(self).fits_with(&rhs),
        ensures
            final(self).wf(),
            final(self)@ == old(self)@.merge(rhs@),
    {
        let ghost merged = rhs@;
        let mut rhs = rhs;
        self.success = self.success + rhs.success;
        self.http_error = self.http_error + rhs.http_error;
        self.tcp_error = self.tcp_error + rhs.tcp_error;
        self.elapsed = self.elapsed + rhs.elapsed;
        if self.min_time > rhs.min_time {
            self.min_time = rhs.min_time;
        }
        if self.max_time < rhs.max_time {
            self.max_time = rhs.max_time;
        }
        self.timings.append(&mut rhs.timings);
        proof {
            law_merge_keeps_wf(old(self)@, merged);
        }
    }

    /// The merge of `self` and `rhs`.
    pub fn add(self, rhs: BenchmarkResult) -> (r: BenchmarkResult)
        requires
            self.wf(),
            rhs.wf(),
            self.fits_with(&rhs),
        ensures
            r.wf(),
            r@ == self@.merge(rhs@),
    {
        let mut r = self;
        r.add_assign(rhs);
        r
    }

    /// The merge of all `results`, or `None` when a counter of the merge
    /// would overflow.
    pub fn checked_sum(results: Vec<BenchmarkResult>) -> (r: Option<BenchmarkResult>)
        requires
            all_wf(results@),
        ensures
            r is Some <==> all_fit(results@),
            r matches Some(m) ==> m.wf() && m@ == merge_all(results@),
    {
        let ghost s = results@;
        let n = results.len();
        let mut i = n;
        let mut attempts: usize = 0;
        let mut elapsed: u64 = 0;
        proof {
            assert(s.subrange(n as int, n as int) =~= Seq::<BenchmarkResult>::empty());
        }
        while i > 0
            invariant
                s == results@,
                n == s.len(),
                i <= n,
                all_wf(s),
                attempts == merge_all(s.subrange(i as int, n as int)).attempts(),
                elapsed == merge_all(s.subrange(i as int, n as int)).elapsed,
            decreases i,
        {
            let k = i - 1;
            let a = results[k].attempt_count();
            let e = results[k].total_time();
            proof {
                assert(s.subrange(k as int, n as int).drop_first() =~= s.subrange(i as int, n as int));
                assert(s.subrange(k as int, n as int)[0] == s[k as int]);
                lemma_merge_all_bounds(s, k as int);
            }
            if a > usize::MAX - attempts || e > u64::MAX - elapsed {
                return None;
            }
            attempts = attempts + a;
            elapsed = elapsed + e;
            i = k;
        }
        proof {
            assert(s.subrange(0, n as int) =~= s);
        }
        Some(BenchmarkResult::sum(results))
    }

    /// The merge of all `results`, in order, starting from the identity.
    pub fn sum(results: Vec<BenchmarkResult>) -> (r: BenchmarkResult)
        requires
            all_wf(results@),
            all_fit(results@),
        ensures
            r.wf(),
            r@ == merge_all(results@),
    {
        let ghost s = results@;
        let mut results = results;
        let mut total = BenchmarkResult::new();
        proof {
            assert(s.subrange(s.len() as int, s.len() as int) =~= Seq::<BenchmarkResult>::empty());
        }
        while results.len() > 0
            invariant
                results@.len() <= s.len(),
                results@ == s.subrange(0, results@.len() as int),
                total.wf(),
                total@ == merge_all(s.subrange(results@.len() as int, s.len() as int)),
                all_wf(s),
                all_fit(s),
            decreases results@.len(),
        {
            let k = results.len() - 1;
            let r = results.pop().unwrap();
            proof {
                assert(r == s[k as int]);
                assert(s.subrange(k as int, s.len() as int).drop_first()
                    =~= s.subrange(k + 1, s.len() as int));
                lemma_merge_all_bounds(s, k as int);
                assert(results@ =~= s.subrange(0, k as int));
            }
            total = r.add(total);
        }
        proof {
            assert(s.subrange(0, s.len() as int) =~= s);
        }
        total
    }
}

/// Merging is associative, exactly.
pub proof fn law_merge_associative(a: ResultModel, b: ResultModel, c: ResultModel)
    ensures
        a.merge(b).merge(c) == a.merge(b.merge(c)),
{
    assert(a.merge(b).merge(c).timings =~= a.merge(b.merge(c)).timings);
}

/// Merging is commutative, up to the order of the samples.
pub proof fn law_merge_commutative(a: ResultModel, b: ResultModel)
    ensures
        a.merge(b).same_stats(b.merge(a)),
{
    lemma_multiset_commutative(a.timings, b.timings);
    lemma_multiset_commutative(b.timings, a.timings);
    assert(a.timings.to_multiset().add(b.timings.to_multiset()) =~= b.timings.to_multiset().add(
        a.timings.to_multiset(),
    ));
}

/// Three records merged in any grouping and any order give the same counts,
/// elapsed time, extrema and multiset of samples.
pub proof fn law_merge_order_free(a: ResultModel, b: ResultModel, c: ResultModel)
    ensures
        a.merge(b).merge(c) == a.merge(b.merge(c)),
        a.merge(b).merge(c).same_stats(a.merge(c).merge(b)),
{
    law_merge_associative(a, b, c);
    law_merge_associative(a, c, b);
    law_merge_commutative(b, c);
    let m = a.merge(b).merge(c);
    let n = a.merge(c).merge(b);
    lemma_multiset_commutative(a.timings, b.timings + c.timings);
    lemma_multiset_commutative(a.timings, c.timings + b.timings);
    assert(m.timings.to_multiset() =~= n.timings.to_multiset());
}

/// The empty record is the identity of merging, on either side.
pub proof fn law_merge_identity(a: ResultModel)
    ensures
        a.merge(ResultModel::identity()) == a,
        ResultModel::identity().merge(a) == a,
{
    assert(a.timings + Seq::<u64>::empty() =~= a.timings);
    assert(Seq::<u64>::empty() + a.timings =~= a.timings);
}

/// The merge of a sequence of well-formed records is well formed.
pub proof fn law_merge_all_wf(s: Seq<BenchmarkResult>)
    requires
        all_wf(s),
    ensures
        merge_all(s).wf(),
    decreases s.len(),
{
    if s.len() > 0 {
        assert(s[0].wf());
        assert(all_wf(s.drop_first())) by {
            assert forall|i: int| 0 <= i < s.drop_first().len() implies (#[trigger] s.drop_first()[i]).wf() by {
                assert(s.drop_first()[i] == s[i + 1]);
            }
        }
        law_merge_all_wf(s.drop_first());
        law_merge_keeps_wf(s[0]@, merge_all(s.drop_first()));
    } else {
        assert(ResultModel::identity().timings =~= Seq::<u64>::empty());
    }
}

proof fn lemma_merge_congruent(x: ResultModel, y: ResultModel, z: ResultModel)
    requires
        x.same_stats(y),
    ensures
        z.merge(x).same_stats(z.merge(y)),
        x.merge(z).same_stats(y.merge(z)),
{
    lemma_multiset_commutative(z.timings, x.timings);
    lemma_multiset_commutative(z.timings, y.timings);
    lemma_multiset_commutative(x.timings, z.timings);
    lemma_multiset_commutative(y.timings, z.timings);
}

proof fn lemma_merge_all_concat(a: Seq<BenchmarkResult>, b: Seq<BenchmarkResult>)
    ensures
        merge_all(a + b) == merge_all(a).merge(merge_all(b)),
    decreases a.len(),
{
    if a.len() == 0 {
        assert(a + b =~= b);
        law_merge_identity(merge_all(b));
    } else {
        assert((a + b).drop_first() =~= a.drop_first() + b);
        assert((a + b)[0] == a[0]);
        lemma_merge_all_concat(a.drop_first(), b);
        law_merge_associative(a[0]@, merge_all(a.drop_first()), merge_all(b));
    }
}

/// Merging the records of a sequence, or of any permutation of it, gives the
/// same counts, elapsed time, extrema and multiset of samples: the order in
/// which execution contexts are merged does not matter.
pub proof fn law_merge_all_order_free(s: Seq<BenchmarkResult>, p: Seq<BenchmarkResult>)
    requires
        s.to_multiset() == p.to_multiset(),
    ensures
        merge_all(s).same_stats(merge_all(p)),
    decreases s.len(),
{
    broadcast use vstd::seq_lib::group_to_multiset_ensures;

    assert(s.to_multiset().len() == s.len());
    assert(p.to_multiset().len() == p.len());
    if s.len() == 0 {
        assert(p =~= s);
    } else {
        let x = s[0];
        assert(s.contains(x));
        assert(s.to_multiset().count(x) > 0);
        assert(p.contains(x));
        let j = choose|j: int| 0 <= j < p.len() && p[j] == x;
        let n = p.len() as int;
        let rest = p.remove(j);
        assert(s.remove(0) =~= s.drop_first());
        assert(rest.to_multiset() == s.drop_first().to_multiset());
        law_merge_all_order_free(s.drop_first(), rest);
        let front = p.subrange(0, j);
        let back = p.subrange(j + 1, n);
        assert(p =~= front + p.subrange(j, n));
        assert(p.subrange(j, n).drop_first() =~= back);
        assert(rest =~= front + back);
        lemma_merge_all_concat(front, p.subrange(j, n));
        lemma_merge_all_concat(front, back);
        let a = merge_all(front);
        let b = merge_all(back);
        assert(merge_all(p) == a.merge(x@.merge(b)));
        assert(merge_all(rest) == a.merge(b));
        lemma_merge_congruent(merge_all(s.drop_first()), a.merge(b), x@);
        law_merge_associative(x@, a, b);
        law_merge_commutative(x@, a);
        lemma_merge_congruent(x@.merge(a), a.merge(x@), b);
        law_merge_associative(a, x@, b);
    }
}

impl Default for BenchmarkResult {
    fn default() -> (r: BenchmarkResult)
        ensures
            r@ == ResultModel::identity(),
            r.wf(),
    {
        BenchmarkResult::new()
    }
}

} // verus!
