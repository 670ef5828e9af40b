//! Timings of answered questions and the report made of them.
use crate::text::{decimal, push_decimal, push_str};
use vstd::prelude::*;

verus! {

#[verifier::external_type_specification]
#[verifier::external_body]
pub struct ExSystemTime(std::time::SystemTime);

#[verifier::external_type_specification]
#[verifier::external_body]
pub struct ExSystemTimeError(std::time::SystemTimeError);

/// `SystemTime::now`: the current time. Nothing is stated of it.
#[verifier::external_body]
fn system_now() -> (t: std::time::SystemTime) {
    std::time::SystemTime::now()
}

/// `SystemTime::duration_since(UNIX_EPOCH)`: the time elapsed since the Unix
/// epoch, an error for a time before it. Nothing is stated of the value.
#[verifier::external_body]
fn since_epoch(t: &std::time::SystemTime) -> (r: Result<
    core::time::Duration,
    std::time::SystemTimeError,
>) {
    t.duration_since(std::time::UNIX_EPOCH)
}

/// `Duration::as_secs`: the whole seconds of a duration. A duration is
/// opaque here, so nothing is stated of the value.
#[verifier::external_body]
fn duration_secs(d: &core::time::Duration) -> (s: u64) {
    d.as_secs()
}

/// The current time as whole seconds since the Unix epoch, 0 for a clock set
/// before the epoch.
fn unix_now_secs() -> (t: u64) {
    match since_epoch(&system_now()) {
        Ok(d) => duration_secs(&d),
        Err(_) => 0,
    }
}

/// The timings of one answered question.
#[derive(Debug, Clone)]
pub struct BenchmarkResult {
    pub query_id: usize,
    pub query_text: String,
    pub embedding_time_ms: u64,
    pub retrieval_time_ms: u64,
    pub llm_time_ms: u64,
    pub total_time_ms: u64,
    pub chunks_retrieved: usize,
    pub model_name: String,
    pub timestamp: u64,
}

/// One value for each timed phase.
#[derive(Debug, Clone, Copy, PartialEq, Eq, Structural)]
pub struct TimeSummary {
    pub embedding_time_ms: u64,
    pub retrieval_time_ms: u64,
    pub llm_time_ms: u64,
    pub total_time_ms: u64,
}

/// The averages of the phases as the report prints them (two decimals).
#[derive(Debug, Clone)]
pub struct FormattedAverages {
    pub embedding: String,
    pub retrieval: String,
    pub llm: String,
    pub total: String,
}

/// A benchmark run: its results and when it started and ended.
#[derive(Debug, Clone)]
pub struct Benchmark {
    pub results: Vec<BenchmarkResult>,
    pub start_time: u64,
    pub end_time: u64,
}

/// The value of phase `k` (0 embedding, 1 retrieval, 2 LLM, 3 total).
pub open spec fn phase(r: BenchmarkResult, k: int) -> u64 {
    if k == 0 {
        r.embedding_time_ms
    } else if k == 1 {
        r.retrieval_time_ms
    } else if k == 2 {
        r.llm_time_ms
    } else {
        r.total_time_ms
    }
}

/// The value of phase `k` in a summary.
pub open spec fn summary_phase(s: TimeSummary, k: int) -> u64 {
    if k == 0 {
        s.embedding_time_ms
    } else if k == 1 {
        s.retrieval_time_ms
    } else if k == 2 {
        s.llm_time_ms
    } else {
        s.total_time_ms
    }
}

/// `s` holds, for each phase, a value of one of the results that is no more
/// (`least`) or no less (`!least`) than that phase in every result.
pub open spec fn extreme_of(results: Seq<BenchmarkResult>, s: TimeSummary, least: bool) -> bool {
    forall|k: int|
        #![trigger summary_phase(s, k)]
        0 <= k < 4 ==> {
            &&& exists|i: int|
                0 <= i < results.len() && phase(#[trigger] results[i], k) == summary_phase(s, k)
            &&& forall|i: int|
                0 <= i < results.len() ==> if least {
                    summary_phase(s, k) <= phase(#[trigger] results[i], k)
                } else {
                    phase(#[trigger] results[i], k) <= summary_phase(s, k)
                }
        }
}

/// The sum of the total times.
pub open spec fn total_sum(results: Seq<BenchmarkResult>) -> nat
    decreases results.len(),
{
    if results.len() == 0 {
        0
    } else {
        total_sum(results.drop_last()) + (results.last().total_time_ms as nat)
    }
}

impl Benchmark {
    /// A run that starts now.
    pub fn new() -> (b: Benchmark)
        ensures
            b.results@.len() == 0,
            b.end_time == 0,
    {
        Benchmark { results: Vec::new(), start_time: unix_now_secs(), end_time: 0 }
    }

    pub fn add_result(&mut self, result: BenchmarkResult)
        ensures
            final(self).results@ == old(self).results@.push(result),
            final(self).start_time == old(self).start_time,
            final(self).end_time == old(self).end_time,
    {
        self.results.push(result);
    }

    /// Records that the run ends now.
    pub fn finalize(&mut self)
        ensures
            final(self).results == old(self).results,
            final(self).start_time == old(self).start_time,
    {
        self.end_time = unix_now_secs();
    }

    /// The least value of each phase, or `None` when there is no result.
    pub fn min_times(&self) -> (r: Option<TimeSummary>)
        ensures
            self.results@.len() == 0 <==> r is None,
            r matches Some(s) ==> extreme_of(self.results@, s, true),
    {
        self.extreme(true)
    }

    /// The greatest value of each phase, or `None` when there is no result.
    pub fn max_times(&self) -> (r: Option<TimeSummary>)
        ensures
            self.results@.len() == 0 <==> r is None,
            r matches Some(s) ==> extreme_of(self.results@, s, false),
    {
        self.extreme(false)
    }

    fn extreme(&self, least: bool) -> (r: Option<TimeSummary>)
        ensures
            self.results@.len() == 0 <==> r is None,
            r matches Some(s) ==> extreme_of(self.results@, s, least),
    {
        if self.results.len() == 0 {
            return None;
        }
        let e = phase_extreme(&self.results, 0, least);
        let rt = phase_extreme(&self.results, 1, least);
        let l = phase_extreme(&self.results, 2, least);
        let t = phase_extreme(&self.results, 3, least);
        let s = TimeSummary {
            embedding_time_ms: e,
            retrieval_time_ms: rt,
            llm_time_ms: l,
            total_time_ms: t,
        };
        assert forall|k: int| #![trigger summary_phase(s, k)] 0 <= k < 4 implies {
            &&& exists|i: int|
                0 <= i < self.results@.len() && phase(#[trigger] self.results@[i], k)
                    == summary_phase(s, k)
            &&& forall|i: int|
                0 <= i < self.results@.len() ==> if least {
                    summary_phase(s, k) <= phase(#[trigger] self.results@[i], k)
                } else {
                    phase(#[trigger] self.results@[i], k) <= summary_phase(s, k)
                }
        } by {
            if k == 0 {
            } else if k == 1 {
            } else if k == 2 {
            } else {
            }
        }
        Some(s)
    }
}

fn phase_of(r: &BenchmarkResult, k: usize) -> (v: u64)
    requires
        k < 4,
    ensures
        v == phase(*r, k as int),
{
    if k == 0 {
        r.embedding_time_ms
    } else if k == 1 {
        r.retrieval_time_ms
    } else if k == 2 {
        r.llm_time_ms
    } else {
        r.total_time_ms
    }
}

/// The least (or greatest) value of phase `k` over nonempty results.
fn phase_extreme(results: &Vec<BenchmarkResult>, k: usize, least: bool) -> (v: u64)
    requires
        results@.len() > 0,
        k < 4,
    ensures
        exists|i: int| 0 <= i < results@.len() && phase(#[trigger] results@[i], k as int) == v,
        forall|i: int|
            0 <= i < results@.len() ==> if least {
                v <= phase(#[trigger] results@[i], k as int)
            } else {
                phase(#[trigger] results@[i], k as int) <= v
            },
{
    let mut v = phase_of(&results[0], k);
    let mut i: usize = 1;
    while i < results.len()
        invariant
            1 <= i <= results@.len(),
            k < 4,
            exists|j: int| 0 <= j < results@.len() && phase(#[trigger] results@[j], k as int) == v,
            forall|j: int|
                0 <= j < i ==> if least {
                    v <= phase(#[trigger] results@[j], k as int)
                } else {
                    phase(#[trigger] results@[j], k as int) <= v
                },
        decreases results@.len() - i,
    {
        let x = phase_of(&results[i], k);
        if (least && x < v) || (!least && x > v) {
            v = x;
        }
        i += 1;
    }
    v
}

fn push_line(out: &mut String, label: &str, value: &str)
    ensures
        final(out)@ == old(out)@ + label@ + value@ + "\n"@,
{
    push_str(out, label);
    push_str(out, value);
    push_str(out, "\n");
}

fn push_number_line(out: &mut String, label: &str, value: u64)
    ensures
        final(out)@ == old(out)@ + label@ + decimal(value as nat) + "\n"@,
{
    push_str(out, label);
    push_decimal(out, value);
    push_str(out, "\n");
}

/// Phase `k` of an optional summary, 0 when there is none.
pub open spec fn phase_or_zero(s: Option<TimeSummary>, k: int) -> u64 {
    match s {
        Some(x) => summary_phase(x, k),
        None => 0,
    }
}

/// The text of the benchmark report.
pub open spec fn report_spec(
    b: Benchmark,
    avg: FormattedAverages,
    min: Option<TimeSummary>,
    max: Option<TimeSummary>,
) -> Seq<char> {
    "=== Benchmark Report ===\n"@ + "Total queries: "@ + decimal(b.results@.len()) + "\n"@
        + "Total time: "@ + decimal(total_sum(b.results@)) + "ms\n\n"@
        + "=== Average Times (ms) ===\n"@ + "Embedding:    "@ + avg.embedding@ + "\n"@
        + "Retrieval:    "@ + avg.retrieval@ + "\n"@ + "LLM:          "@ + avg.llm@ + "\n"@
        + "Total:        "@ + avg.total@ + "\n"@ + "\n"@ + "=== Min Times (ms) ===\n"@
        + "Embedding:    "@ + decimal(phase_or_zero(min, 0) as nat) + "\n"@ + "Retrieval:    "@
        + decimal(phase_or_zero(min, 1) as nat) + "\n"@ + "LLM:          "@ + decimal(
        phase_or_zero(min, 2) as nat,
    ) + "\n"@ + "Total:        "@ + decimal(phase_or_zero(max, 3) as nat) + "\n"@ + "\n"@
        + "=== Max Times (ms) ===\n"@ + "Embedding:    "@ + decimal(phase_or_zero(max, 0) as nat)
        + "\n"@ + "Retrieval:    "@ + decimal(phase_or_zero(max, 1) as nat) + "\n"@
        + "LLM:          "@ + decimal(phase_or_zero(max, 2) as nat) + "\n"@ + "Total:        "@
        + decimal(phase_or_zero(max, 3) as nat) + "\n"@
}

/// The sum of the total times.
fn sum_totals(results: &Vec<BenchmarkResult>) -> (s: u64)
    requires
        total_sum(results@) <= u64::MAX,
    ensures
        s == total_sum(results@),
{
    let mut s: u64 = 0;
    let mut i: usize = 0;
    while i < results.len()
        invariant
            i <= results@.len(),
            s == total_sum(results@.take(i as int)),
            total_sum(results@) <= u64::MAX,
        decreases results@.len() - i,
    {
        assert(results@.take(i + 1).drop_last() =~= results@.take(i as int));
        proof {
            lemma_total_sum_prefix(results@, i + 1);
        }
        s = s + results[i].total_time_ms;
        i += 1;
    }
    assert(results@.take(results@.len() as int) =~= results@);
    s
}

proof fn lemma_total_sum_prefix(r: Seq<BenchmarkResult>, n: int)
    requires
        0 <= n <= r.len(),
    ensures
        total_sum(r.take(n)) <= total_sum(r),
    decreases r.len(),
{
    if n < r.len() {
        assert(r.drop_last().take(n) =~= r.take(n));
        lemma_total_sum_prefix(r.drop_last(), n);
    } else {
        assert(r.take(n) =~= r);
    }
}

/// The benchmark report: counts, total time, then the average, least and
/// greatest time of each phase. The "Total" line of the least times shows
/// the greatest total. The averages are given
/// already formatted; a missing least or greatest value shows as 0.
pub fn collect_benchmark_output(benchmark: &Benchmark, averages: &FormattedAverages) -> (out: String)
    requires
        total_sum(benchmark.results@) <= u64::MAX,
    ensures
        out@ == report_spec(*benchmark, *averages, benchmark.min_spec(), benchmark.max_spec()),
{
    let min = benchmark.min_times();
    let max = benchmark.max_times();
    proof {
        benchmark.lemma_min_max(min, max);
    }
    let total_queries = benchmark.results.len();
    let total_time = sum_totals(&benchmark.results);
    let mut out = String::new();
    push_str(&mut out, "=== Benchmark Report ===\n");
    push_number_line(&mut out, "Total queries: ", total_queries as u64);
    push_str(&mut out, "Total time: ");
    push_decimal(&mut out, total_time);
    push_str(&mut out, "ms\n\n");
    push_str(&mut out, "=== Average Times (ms) ===\n");
    push_line(&mut out, "Embedding:    ", averages.embedding.as_str());
    push_line(&mut out, "Retrieval:    ", averages.retrieval.as_str());
    push_line(&mut out, "LLM:          ", averages.llm.as_str());
    push_line(&mut out, "Total:        ", averages.total.as_str());
    push_str(&mut out, "\n");
    push_str(&mut out, "=== Min Times (ms) ===\n");
    push_number_line(&mut out, "Embedding:    ", or_zero(&min, 0));
    push_number_line(&mut out, "Retrieval:    ", or_zero(&min, 1));
    push_number_line(&mut out, "LLM:          ", or_zero(&min, 2));
    push_number_line(&mut out, "Total:        ", or_zero(&max, 3));
    push_str(&mut out, "\n");
    push_str(&mut out, "=== Max Times (ms) ===\n");
    push_number_line(&mut out, "Embedding:    ", or_zero(&max, 0));
    push_number_line(&mut out, "Retrieval:    ", or_zero(&max, 1));
    push_number_line(&mut out, "LLM:          ", or_zero(&max, 2));
    push_number_line(&mut out, "Total:        ", or_zero(&max, 3));
    assert(out@ =~= report_spec(*benchmark, *averages, min, max));
    out
}

fn or_zero(s: &Option<TimeSummary>, k: usize) -> (v: u64)
    requires
        k < 4,
    ensures
        v == phase_or_zero(*s, k as int),
{
    match s {
        Some(x) => if k == 0 {
            x.embedding_time_ms
        } else if k == 1 {
            x.retrieval_time_ms
        } else if k == 2 {
            x.llm_time_ms
        } else {
            x.total_time_ms
        },
        None => 0,
    }
}

impl Benchmark {
    /// The least values of the phases (what [`Benchmark::min_times`] returns).
    pub open spec fn min_spec(&self) -> Option<TimeSummary> {
        if self.results@.len() == 0 {
            None
        } else {
            Some(choose|s: TimeSummary| extreme_of(self.results@, s, true))
        }
    }

    /// The greatest values of the phases (what [`Benchmark::max_times`] returns).
    pub open spec fn max_spec(&self) -> Option<TimeSummary> {
        if self.results@.len() == 0 {
            None
        } else {
            Some(choose|s: TimeSummary| extreme_of(self.results@, s, false))
        }
    }

    /// The least and greatest values of the phases are unique.
    pub proof fn lemma_min_max(&self, min: Option<TimeSummary>, max: Option<TimeSummary>)
        requires
            self.results@.len() == 0 <==> min is None,
            min matches Some(s) ==> extreme_of(self.results@, s, true),
            self.results@.len() == 0 <==> max is None,
            max matches Some(s) ==> extreme_of(self.results@, s, false),
        ensures
            min == self.min_spec(),
            max == self.max_spec(),
    {
        if let Some(s) = min {
            let c = choose|c: TimeSummary| extreme_of(self.results@, c, true);
            lemma_extreme_unique(self.results@, s, c, true);
        }
        if let Some(s) = max {
            let c = choose|c: TimeSummary| extreme_of(self.results@, c, false);
            lemma_extreme_unique(self.results@, s, c, false);
        }
    }
}

proof fn lemma_extreme_unique(r: Seq<BenchmarkResult>, a: TimeSummary, b: TimeSummary, least: bool)
    requires
        extreme_of(r, a, least),
        extreme_of(r, b, least),
    ensures
        a == b,
{
    assert forall|k: int| 0 <= k < 4 implies summary_phase(a, k) == summary_phase(b, k) by {
        let i = choose|i: int| 0 <= i < r.len() && phase(#[trigger] r[i], k) == summary_phase(a, k);
        let j = choose|j: int| 0 <= j < r.len() && phase(#[trigger] r[j], k) == summary_phase(b, k);
        assert(phase(r[i], k) == summary_phase(a, k));
        assert(phase(r[j], k) == summary_phase(b, k));
    }
    assert(summary_phase(a, 0) == summary_phase(b, 0));
    assert(summary_phase(a, 1) == summary_phase(b, 1));
    assert(summary_phase(a, 2) == summary_phase(b, 2));
    assert(summary_phase(a, 3) == summary_phase(b, 3));
}

} // verus!
