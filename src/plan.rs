use vstd::prelude::*;

use crate::text::{trim_of, trim_text, views};

verus! {

/// At most this many targets are scanned; the rest are dropped.
pub const MAX_TARGETS: usize = 128;

/// The per-probe timeout when none is asked for.
pub const DEFAULT_TIMEOUT_MS: u32 = 1200;

/// The shortest per-probe timeout.
pub const MIN_TIMEOUT_MS: u32 = 200;

/// The longest per-probe timeout.
pub const MAX_TIMEOUT_MS: u32 = 10000;

/// One sanitized target with its position in the scan.
#[derive(Debug)]
pub struct ProbeJob {
    pub index: usize,
    pub target: String,
}

/// What a scan runs: its jobs, numbered from 0, and the per-probe timeout.
#[derive(Debug)]
pub struct ScanPlan {
    pub jobs: Vec<ProbeJob>,
    pub timeout_ms: u32,
}

/// Why a scan could not start.
#[derive(Debug, Clone, Copy, PartialEq, Eq, Structural)]
pub enum ScanError {
    /// No target is left once blank entries are dropped.
    InvalidInput,
}

impl ScanError {
    /// A sentence that describes the error.
    pub fn message(&self) -> (r: String)
        ensures
            r@ == "No targets provided"@,
    {
        String::from_str("No targets provided")
    }
}

/// The timeout asked for, or the default, brought into `[200, 10000]`.
pub open spec fn spec_effective_timeout(timeout_ms: Option<u32>) -> u32 {
    let t = match timeout_ms {
        Some(t) => t,
        None => DEFAULT_TIMEOUT_MS,
    };
    if t < MIN_TIMEOUT_MS {
        MIN_TIMEOUT_MS
    } else if t > MAX_TIMEOUT_MS {
        MAX_TIMEOUT_MS
    } else {
        t
    }
}

/// The entries of `ts` that are not empty, in their order.
pub open spec fn non_blank(ts: Seq<Seq<char>>) -> Seq<Seq<char>>
    decreases ts.len(),
{
    if ts.len() == 0 {
        Seq::empty()
    } else if ts.last().len() > 0 {
        non_blank(ts.drop_last()).push(ts.last())
    } else {
        non_blank(ts.drop_last())
    }
}

/// The first 128 non-empty entries of already trimmed targets.
pub open spec fn kept_targets(trimmed: Seq<Seq<char>>) -> Seq<Seq<char>> {
    let c = non_blank(trimmed);
    if c.len() <= MAX_TARGETS {
        c
    } else {
        c.take(MAX_TARGETS as int)
    }
}

/// The targets that a scan of `raw` probes: each entry trimmed, the empty
/// ones dropped, the first 128 of the rest kept.
pub open spec fn sanitized(raw: Seq<Seq<char>>) -> Seq<Seq<char>> {
    kept_targets(raw.map_values(|s: Seq<char>| trim_of(s)))
}

/// `jobs` number `targets` from 0, in their order.
pub open spec fn jobs_match(jobs: Seq<ProbeJob>, targets: Seq<Seq<char>>) -> bool {
    &&& jobs.len() == targets.len()
    &&& forall|k: int| 0 <= k < jobs.len() ==> (#[trigger] jobs[k]).index == k && jobs[k].target@ == targets[k]
}

/// The per-probe timeout of a scan: the one asked for, or 1200 ms, clamped
/// to `[200, 10000]`.
pub fn effective_timeout(timeout_ms: Option<u32>) -> (r: u32)
    ensures
        r == spec_effective_timeout(timeout_ms),
{
    let t = match timeout_ms {
        Some(t) => t,
        None => DEFAULT_TIMEOUT_MS,
    };
    if t < MIN_TIMEOUT_MS {
        MIN_TIMEOUT_MS
    } else if t > MAX_TIMEOUT_MS {
        MAX_TIMEOUT_MS
    } else {
        t
    }
}

/// Every entry that `non_blank` keeps is non-empty, and it keeps no more
/// than it was given.
proof fn lemma_non_blank_entries(ts: Seq<Seq<char>>)
    ensures
        non_blank(ts).len() <= ts.len(),
        forall|k: int| 0 <= k < non_blank(ts).len() ==> (#[trigger] non_blank(ts)[k]).len() > 0,
    decreases ts.len(),
{
    if ts.len() > 0 {
        lemma_non_blank_entries(ts.drop_last());
    }
}

/// Filtering a prefix gives a prefix of the filtered whole.
proof fn lemma_non_blank_prefix(ts: Seq<Seq<char>>, i: int, j: int)
    requires
        0 <= i <= j <= ts.len(),
    ensures
        non_blank(ts.take(i)).len() <= non_blank(ts.take(j)).len(),
        non_blank(ts.take(j)).take(non_blank(ts.take(i)).len() as int) == non_blank(ts.take(i)),
    decreases j - i,
{
    if i < j {
        lemma_non_blank_prefix(ts, i, j - 1);
        assert(ts.take(j).drop_last() == ts.take(j - 1));
        let a = non_blank(ts.take(i));
        let b = non_blank(ts.take(j - 1));
        assert(b.take(a.len() as int) == a);
        if ts.take(j).last().len() > 0 {
            assert(b.push(ts.take(j).last()).take(a.len() as int) == b.take(a.len() as int));
        }
    } else {
        assert(non_blank(ts.take(j)).take(non_blank(ts.take(i)).len() as int) == non_blank(ts.take(j)));
    }
}

/// Numbers the non-empty entries of already trimmed targets from 0, keeping
/// the first 128.
pub fn jobs_from_trimmed(trimmed: &Vec<String>) -> (jobs: Vec<ProbeJob>)
    ensures
        jobs_match(jobs@, kept_targets(views(trimmed@))),
{
    let ghost ts = views(trimmed@);
    let mut jobs: Vec<ProbeJob> = Vec::new();
    let mut i: usize = 0;
    while i < trimmed.len() && jobs.len() < MAX_TARGETS
        invariant
            ts == views(trimmed@),
            i <= trimmed@.len(),
            jobs_match(jobs@, non_blank(ts.take(i as int))),
            jobs@.len() <= MAX_TARGETS,
        decreases trimmed@.len() - i,
    {
        assert(ts.take(i + 1).drop_last() == ts.take(i as int));
        assert(ts.take(i + 1).last() == trimmed@[i as int]@);
        if !trimmed[i].as_str().is_empty() {
            let index = jobs.len();
            proof {
                assert(trimmed@[i as int]@.len() > 0);
            }
            jobs.push(ProbeJob { index, target: trimmed[i].clone() });
            assert(jobs@[index as int] == jobs@.last());
        } else {
            proof {
                assert(trimmed@[i as int]@.len() == 0);
            }
        }
        i = i + 1;
    }
    proof {
        if i == trimmed.len() {
            assert(ts.take(i as int) == ts);
        } else {
            lemma_non_blank_prefix(ts, i as int, ts.len() as int);
            assert(ts.take(ts.len() as int) == ts);
        }
    }
    jobs
}

/// Trims each target, drops the empty ones and numbers the first 128 of the
/// rest from 0.
pub fn sanitize_targets(targets: &Vec<String>) -> (jobs: Vec<ProbeJob>)
    ensures
        jobs_match(jobs@, sanitized(views(targets@))),
{
    let mut trimmed: Vec<String> = Vec::new();
    for i in 0..targets.len()
        invariant
            trimmed@.len() == i,
            forall|k: int| 0 <= k < i ==> (#[trigger] trimmed@[k])@ == trim_of(targets@[k]@),
    {
        let t = trim_text(targets[i].as_str());
        trimmed.push(String::from_str(t));
    }
    assert(views(trimmed@) == views(targets@).map_values(|s: Seq<char>| trim_of(s)));
    jobs_from_trimmed(&trimmed)
}

/// Prepares a scan of `targets`: the sanitized jobs and the per-probe timeout.
/// Fails with `InvalidInput` exactly when no target is left.
pub fn plan_scan(targets: Vec<String>, timeout_ms: Option<u32>) -> (r: Result<ScanPlan, ScanError>)
    ensures
        r is Err <==> sanitized(views(targets@)).len() == 0,
        r matches Err(e) ==> e == ScanError::InvalidInput,
        r matches Ok(plan) ==> {
            &&& jobs_match(plan.jobs@, sanitized(views(targets@)))
            &&& plan.timeout_ms == spec_effective_timeout(timeout_ms)
        },
{
    let jobs = sanitize_targets(&targets);
    if jobs.len() == 0 {
        return Err(ScanError::InvalidInput);
    }
    Ok(ScanPlan { jobs, timeout_ms: effective_timeout(timeout_ms) })
}

/// A sanitized target list holds at most 128 entries and no empty one.
pub proof fn lemma_sanitized_is_bounded(raw: Seq<Seq<char>>)
    ensures
        sanitized(raw).len() <= MAX_TARGETS,
        forall|k: int| 0 <= k < sanitized(raw).len() ==> (#[trigger] sanitized(raw)[k]).len() > 0,
{
    let trimmed = raw.map_values(|s: Seq<char>| trim_of(s));
    lemma_non_blank_entries(trimmed);
}

} // verus!
