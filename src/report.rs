use vstd::prelude::*;

use crate::probe::FpingHostResult;
use crate::scan::{collected, lemma_complete_board_covers_jobs, ResultBoard};

verus! {

/// The summary of a scan. The loss, a fraction, is `(sent - received) / sent`.
#[derive(Debug)]
pub struct FpingScanResult {
    pub sent: u32,
    pub received: u32,
    pub min_ms: u32,
    pub avg_ms: u32,
    pub max_ms: u32,
    pub hosts: Vec<FpingHostResult>,
}

/// How many of `hosts` answered.
pub open spec fn success_count(hosts: Seq<FpingHostResult>) -> nat
    decreases hosts.len(),
{
    if hosts.len() == 0 {
        0
    } else if hosts.last().success {
        success_count(hosts.drop_last()) + 1
    } else {
        success_count(hosts.drop_last())
    }
}

/// The latencies of the hosts that answered, in their order.
pub open spec fn alive_latencies(hosts: Seq<FpingHostResult>) -> Seq<u32>
    decreases hosts.len(),
{
    if hosts.len() == 0 {
        Seq::empty()
    } else if hosts.last().success {
        alive_latencies(hosts.drop_last()).push(hosts.last().latency_ms)
    } else {
        alive_latencies(hosts.drop_last())
    }
}

/// The smallest of `ls`, or 0 when it is empty.
pub open spec fn seq_min(ls: Seq<u32>) -> u32
    decreases ls.len(),
{
    if ls.len() == 0 {
        0
    } else if ls.len() == 1 || ls.last() < seq_min(ls.drop_last()) {
        ls.last()
    } else {
        seq_min(ls.drop_last())
    }
}

/// The largest of `ls`, or 0 when it is empty.
pub open spec fn seq_max(ls: Seq<u32>) -> u32
    decreases ls.len(),
{
    if ls.len() == 0 {
        0
    } else if ls.len() == 1 || ls.last() > seq_max(ls.drop_last()) {
        ls.last()
    } else {
        seq_max(ls.drop_last())
    }
}

pub open spec fn seq_sum(ls: Seq<u32>) -> int
    decreases ls.len(),
{
    if ls.len() == 0 {
        0
    } else {
        seq_sum(ls.drop_last()) + ls.last()
    }
}

/// The mean of `ls` rounded down, or 0 when it is empty.
pub open spec fn seq_mean(ls: Seq<u32>) -> int {
    if ls.len() == 0 {
        0
    } else {
        seq_sum(ls) / ls.len() as int
    }
}

proof fn lemma_alive_len(hosts: Seq<FpingHostResult>)
    ensures
        alive_latencies(hosts).len() == success_count(hosts),
        success_count(hosts) <= hosts.len(),
    decreases hosts.len(),
{
    if hosts.len() > 0 {
        lemma_alive_len(hosts.drop_last());
    }
}

proof fn lemma_mean_bound(sum: int, n: int)
    requires
        0 <= sum <= n * u32::MAX,
        n > 0,
    ensures
        0 <= sum / n <= u32::MAX,
{
    assert(sum / n <= (n * u32::MAX) / n) by (nonlinear_arith)
        requires 0 <= sum <= n * u32::MAX, n > 0;
    assert((n * u32::MAX) / n == u32::MAX) by (nonlinear_arith)
        requires n > 0;
    assert(0 <= sum / n) by (nonlinear_arith)
        requires 0 <= sum, n > 0;
}

/// The report on `hosts`, the results of a scan in job order: how many were
/// probed and answered, and the least, mean and greatest latency of those
/// that answered (all 0 when none did).
pub fn summarize(hosts: Vec<FpingHostResult>) -> (r: FpingScanResult)
    requires
        hosts@.len() <= u32::MAX,
    ensures
        r.sent == hosts@.len(),
        r.received == success_count(hosts@),
        r.min_ms == seq_min(alive_latencies(hosts@)),
        r.max_ms == seq_max(alive_latencies(hosts@)),
        r.avg_ms == seq_mean(alive_latencies(hosts@)),
        r.hosts@ == hosts@,
{
    let ghost hs = hosts@;
    let mut received: u32 = 0;
    let mut min_ms: u32 = 0;
    let mut max_ms: u32 = 0;
    let mut sum: u64 = 0;
    let mut i: usize = 0;
    while i < hosts.len()
        invariant
            hs == hosts@,
            hs.len() <= u32::MAX,
            i <= hs.len(),
            received == success_count(hs.take(i as int)),
            received <= i,
            min_ms == seq_min(alive_latencies(hs.take(i as int))),
            max_ms == seq_max(alive_latencies(hs.take(i as int))),
            sum == seq_sum(alive_latencies(hs.take(i as int))),
            sum <= received * u32::MAX,
        decreases hs.len() - i,
    {
        let ghost prev = hs.take(i as int);
        assert(hs.take(i + 1).drop_last() == prev);
        assert(hs.take(i + 1).last() == hs[i as int]);
        proof {
            lemma_alive_len(prev);
        }
        if hosts[i].success {
            let lat = hosts[i].latency_ms;
            let ghost next = alive_latencies(prev).push(lat);
            assert(alive_latencies(hs.take(i + 1)) == next);
            assert(next.drop_last() == alive_latencies(prev));
            if received == 0 || lat < min_ms {
                min_ms = lat;
            }
            if received == 0 || lat > max_ms {
                max_ms = lat;
            }
            assert(sum + lat <= (received + 1) * u32::MAX) by (nonlinear_arith)
                requires sum <= received * u32::MAX, lat <= u32::MAX;
            sum = sum + lat as u64;
            received = received + 1;
        }
        i = i + 1;
    }
    assert(hs.take(i as int) == hs);
    let avg_ms: u32 = if received == 0 {
        0
    } else {
        proof {
            lemma_alive_len(hs);
            lemma_mean_bound(sum as int, received as int);
        }
        (sum / received as u64) as u32
    };
    proof {
        lemma_alive_len(hs);
    }
    FpingScanResult {
        sent: hosts.len() as u32,
        received,
        min_ms,
        avg_ms,
        max_ms,
        hosts,
    }
}

impl ResultBoard {
    /// The report of a scan whose results were recorded on this board: once
    /// every job has its result, one host per job, in job order.
    pub fn into_report(self) -> (r: FpingScanResult)
        ensures
            r.hosts@ == collected(self@.slots),
            r.sent == collected(self@.slots).len(),
            r.received == success_count(r.hosts@),
            r.min_ms == seq_min(alive_latencies(r.hosts@)),
            r.max_ms == seq_max(alive_latencies(r.hosts@)),
            r.avg_ms == seq_mean(alive_latencies(r.hosts@)),
            self@.is_complete() ==> {
                &&& r.sent == self@.expected.len()
                &&& forall|k: int| 0 <= k < r.hosts@.len() ==> (#[trigger] r.hosts@[k]).target@ == self@.expected[k]
            },
    {
        let ghost b = self@;
        let hosts = self.into_hosts();
        proof {
            if b.is_complete() {
                lemma_complete_board_covers_jobs(b);
            }
        }
        summarize(hosts)
    }
}

/// A report never counts more replies than probes, so its loss,
/// `(sent - received) / sent`, lies between 0 and 100 percent.
pub proof fn lemma_loss_is_a_percentage(hosts: Seq<FpingHostResult>)
    ensures
        success_count(hosts) <= hosts.len(),
        0 <= (hosts.len() - success_count(hosts)) * 100 <= 100 * hosts.len(),
{
    lemma_alive_len(hosts);
}

/// When no host answered, the least, mean and greatest latency are all 0.
pub proof fn lemma_no_reply_means_zero_latency(hosts: Seq<FpingHostResult>)
    requires
        success_count(hosts) == 0,
    ensures
        seq_min(alive_latencies(hosts)) == 0,
        seq_mean(alive_latencies(hosts)) == 0,
        seq_max(alive_latencies(hosts)) == 0,
{
    lemma_alive_len(hosts);
}

/// The least and greatest of a non-empty list of latencies are among them,
/// and bound all of them.
pub proof fn lemma_min_max_are_extremes(ls: Seq<u32>)
    requires
        ls.len() > 0,
    ensures
        ls.contains(seq_min(ls)),
        ls.contains(seq_max(ls)),
        forall|k: int| 0 <= k < ls.len() ==> seq_min(ls) <= #[trigger] ls[k] <= seq_max(ls),
    decreases ls.len(),
{
    if ls.len() > 1 {
        let rest = ls.drop_last();
        lemma_min_max_are_extremes(rest);
        assert forall|k: int| 0 <= k < ls.len() implies seq_min(ls) <= #[trigger] ls[k] <= seq_max(ls) by {
            if k < ls.len() - 1 {
                assert(ls[k] == rest[k]);
            }
        }
        let m = choose|k: int| 0 <= k < rest.len() && rest[k] == seq_min(rest);
        let n = choose|k: int| 0 <= k < rest.len() && rest[k] == seq_max(rest);
        assert(ls[m] == rest[m]);
        assert(ls[n] == rest[n]);
        assert(ls[ls.len() - 1] == ls.last());
    } else {
        assert(ls[0] == ls.last());
    }
}

} // verus!
