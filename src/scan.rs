use vstd::prelude::*;

use std::collections::VecDeque;

use crate::plan::{jobs_match, sanitized, ProbeJob};
use crate::probe::FpingHostResult;

verus! {

/// Upper bound on the number of probes that run at the same time.
pub const MAX_PARALLEL_PROBES: usize = 24;

/// The number of workers for a scan: `min(jobs, 24, max(parallelism, 1))`.
pub open spec fn spec_worker_count(job_count: int, available_parallelism: int) -> int {
    let cpu = if available_parallelism < 1 { 1 } else { available_parallelism };
    let capped = if cpu < MAX_PARALLEL_PROBES { cpu } else { MAX_PARALLEL_PROBES as int };
    if job_count < capped { job_count } else { capped }
}

/// How many workers a scan of `job_count` jobs runs on a machine that reports
/// `available_parallelism` hardware threads (0 when that could not be determined).
pub fn worker_count(job_count: usize, available_parallelism: usize) -> (r: usize)
    ensures
        r == spec_worker_count(job_count as int, available_parallelism as int),
{
    let cpu: usize = if available_parallelism < 1 { 1 } else { available_parallelism };
    let capped: usize = if cpu < MAX_PARALLEL_PROBES { cpu } else { MAX_PARALLEL_PROBES };
    if job_count < capped { job_count } else { capped }
}

// ------------------------------------------------------------------
// The job queue that workers drain
// ------------------------------------------------------------------

/// The jobs of a scan that no worker has taken yet, first in first out.
pub struct JobQueue {
    pending: VecDeque<ProbeJob>,
}

impl View for JobQueue {
    type V = Seq<ProbeJob>;

    closed spec fn view(&self) -> Seq<ProbeJob> {
        self.pending@
    }
}

impl JobQueue {
    /// A queue that hands out `jobs` in their order.
    pub fn new(jobs: Vec<ProbeJob>) -> (q: JobQueue)
        ensures
            q@ == jobs@,
    {
        let ghost all = jobs@;
        let mut rest = jobs;
        let mut pending: VecDeque<ProbeJob> = VecDeque::new();
        while rest.len() > 0
            invariant
                rest@ + pending@ == all,
            decreases rest@.len(),
        {
            let ghost before = rest@;
            let job = rest.pop().unwrap();
            pending.push_front(job);
            assert(before == rest@.push(job));
            assert(rest@ + pending@ == before + (pending@.drop_first()));
        }
        assert(rest@ + pending@ == pending@);
        JobQueue { pending }
    }

    /// Takes the job at the front of the queue, if any is left.
    pub fn pop_next(&mut self) -> (r: Option<ProbeJob>)
        ensures
            old(self)@.len() == 0 ==> r is None && final(self)@ == old(self)@,
            old(self)@.len() > 0 ==> r == Some(old(self)@[0]) && final(self)@ == old(self)@.drop_first(),
    {
        let r = self.pending.pop_front();
        proof {
            if old(self)@.len() > 0 {
                assert(old(self)@.subrange(1, old(self)@.len() as int) == old(self)@.drop_first());
            }
        }
        r
    }

    /// How many jobs are left.
    pub fn remaining(&self) -> (r: usize)
        ensures
            r == self@.len(),
    {
        self.pending.len()
    }
}

// ------------------------------------------------------------------
// The board on which workers record results
// ------------------------------------------------------------------

/// What a result board holds: the target of each job, and the result
/// recorded for it so far.
pub struct BoardView {
    pub expected: Seq<Seq<char>>,
    pub slots: Seq<Option<FpingHostResult>>,
}

impl BoardView {
    /// One slot per job, and each recorded result names its job's target.
    pub open spec fn well_formed(self) -> bool {
        &&& self.slots.len() == self.expected.len()
        &&& self.expected.len() <= u32::MAX
        &&& forall|k: int|
            0 <= k < self.slots.len() && (#[trigger] self.slots[k]) is Some
                ==> self.slots[k]->Some_0.target@ == self.expected[k]
    }

    /// Every job has its result.
    pub open spec fn is_complete(self) -> bool {
        forall|k: int| 0 <= k < self.slots.len() ==> (#[trigger] self.slots[k]) is Some
    }

    /// A result for job `index` is taken when that job exists, has no result
    /// yet, and the result names its target.
    pub open spec fn accepts(self, index: int, result: FpingHostResult) -> bool {
        &&& 0 <= index < self.slots.len()
        &&& self.slots[index] is None
        &&& result.target@ == self.expected[index]
    }

    /// The board after offering `result` for job `index`.
    pub open spec fn recorded(self, index: int, result: FpingHostResult) -> BoardView {
        if self.accepts(index, result) {
            BoardView { expected: self.expected, slots: self.slots.update(index, Some(result)) }
        } else {
            self
        }
    }
}

/// The recorded results, in job order, skipping jobs without one.
pub open spec fn collected(slots: Seq<Option<FpingHostResult>>) -> Seq<FpingHostResult>
    decreases slots.len(),
{
    if slots.len() == 0 {
        Seq::empty()
    } else {
        match slots[0] {
            Some(r) => seq![r] + collected(slots.drop_first()),
            None => collected(slots.drop_first()),
        }
    }
}

/// The results of a scan, kept in the order of its jobs whatever the order
/// in which the probes finish.
pub struct ResultBoard {
    expected: Vec<String>,
    slots: Vec<Option<FpingHostResult>>,
}

impl View for ResultBoard {
    type V = BoardView;

    closed spec fn view(&self) -> BoardView {
        BoardView {
            expected: self.expected@.map_values(|s: String| s@),
            slots: self.slots@,
        }
    }
}

impl ResultBoard {
    #[verifier::type_invariant]
    closed spec fn board_invariant(self) -> bool {
        self@.well_formed()
    }

    /// An empty board for `jobs`, which a scan numbers from 0.
    pub fn new(jobs: &Vec<ProbeJob>) -> (b: ResultBoard)
        requires
            jobs@.len() <= u32::MAX,
        ensures
            b@.expected.len() == jobs@.len(),
            forall|k: int| 0 <= k < jobs@.len() ==> (#[trigger] b@.expected[k]) == jobs@[k].target@,
            b@.slots.len() == jobs@.len(),
            forall|k: int| 0 <= k < jobs@.len() ==> (#[trigger] b@.slots[k]) is None,
    {
        let mut expected: Vec<String> = Vec::new();
        let mut slots: Vec<Option<FpingHostResult>> = Vec::new();
        for i in 0..jobs.len()
            invariant
                expected@.len() == i,
                slots@.len() == i,
                forall|k: int| 0 <= k < i ==> (#[trigger] expected@[k])@ == jobs@[k].target@,
                forall|k: int| 0 <= k < i ==> (#[trigger] slots@[k]) is None,
        {
            expected.push(jobs[i].target.clone());
            slots.push(None);
        }
        ResultBoard { expected, slots }
    }

    /// Records `result` as the outcome of job `index`. The board takes it,
    /// and says so, exactly when `accepts` holds; otherwise it is unchanged.
    pub fn record(&mut self, index: usize, result: FpingHostResult) -> (taken: bool)
        ensures
            taken == old(self)@.accepts(index as int, result),
            final(self)@ == old(self)@.recorded(index as int, result),
    {
        proof {
            use_type_invariant(&*self);
        }
        if index >= self.slots.len() {
            return false;
        }
        if self.slots[index].is_some() {
            return false;
        }
        if result.target != self.expected[index] {
            return false;
        }
        let ghost r = result;
        let mut board = ResultBoard { expected: Vec::new(), slots: Vec::new() };
        std::mem::swap(self, &mut board);
        let ResultBoard { expected, mut slots } = board;
        slots.set(index, Some(result));
        assert(slots@ == old(self)@.slots.update(index as int, Some(r)));
        *self = ResultBoard { expected, slots };
        true
    }

    /// The recorded results in job order.
    pub fn into_hosts(self) -> (hosts: Vec<FpingHostResult>)
        ensures
            self@.well_formed(),
            hosts@ == collected(self@.slots),
            hosts@.len() <= self@.slots.len(),
    {
        proof {
            use_type_invariant(&self);
            lemma_collected_len(self@.slots);
        }
        let ghost all = self@.slots;
        let ResultBoard { expected: _, slots } = self;
        let mut rest = slots;
        let mut hosts: Vec<FpingHostResult> = Vec::new();
        while rest.len() > 0
            invariant
                hosts@ + collected(rest@) == collected(all),
            decreases rest@.len(),
        {
            let ghost before = rest@;
            let slot = rest.remove(0);
            assert(rest@ == before.drop_first());
            match slot {
                Some(r) => {
                    hosts.push(r);
                    assert(hosts@ + collected(rest@) == hosts@.drop_last() + (seq![r] + collected(rest@)));
                },
                None => {},
            }
        }
        assert(hosts@ + collected(rest@) == hosts@);
        hosts
    }
}

proof fn lemma_collected_len(slots: Seq<Option<FpingHostResult>>)
    ensures
        collected(slots).len() <= slots.len(),
    decreases slots.len(),
{
    if slots.len() > 0 {
        lemma_collected_len(slots.drop_first());
    }
}

/// A complete board yields one result per job, each for its own job.
pub proof fn lemma_complete_board_covers_jobs(b: BoardView)
    requires
        b.well_formed(),
        b.is_complete(),
    ensures
        collected(b.slots).len() == b.expected.len(),
        forall|k: int| 0 <= k < b.expected.len() ==> (#[trigger] collected(b.slots)[k]).target@ == b.expected[k],
        forall|k: int| 0 <= k < b.expected.len() ==> Some(#[trigger] collected(b.slots)[k]) == b.slots[k],
    decreases b.slots.len(),
{
    if b.slots.len() > 0 {
        let rest = BoardView { expected: b.expected.drop_first(), slots: b.slots.drop_first() };
        assert(rest.well_formed() && rest.is_complete()) by {
            assert forall|k: int| 0 <= k < rest.slots.len() implies (#[trigger] rest.slots[k]) is Some by {
                assert(rest.slots[k] == b.slots[k + 1]);
            }
        }
        lemma_complete_board_covers_jobs(rest);
        assert forall|k: int| 0 <= k < b.expected.len() implies (#[trigger] collected(b.slots)[k]).target@
            == b.expected[k] && Some(collected(b.slots)[k]) == b.slots[k] by {
            assert(b.slots[0] is Some);
            if k > 0 {
                assert(collected(b.slots)[k] == collected(rest.slots)[k - 1]);
                assert(rest.slots[k - 1] == b.slots[k]);
                assert(rest.expected[k - 1] == b.expected[k]);
            }
        }
    }
}

/// The board after offering each of `events`, a job index and its result,
/// in turn.
pub open spec fn recorded_all(b: BoardView, events: Seq<(int, FpingHostResult)>) -> BoardView
    decreases events.len(),
{
    if events.len() == 0 {
        b
    } else {
        recorded_all(b, events.drop_last()).recorded(events.last().0, events.last().1)
    }
}

/// `events` offer at most one result per job, each for an existing job and
/// naming that job's target.
pub open spec fn events_fit(b: BoardView, events: Seq<(int, FpingHostResult)>) -> bool {
    &&& forall|j: int|
        0 <= j < events.len() ==> 0 <= (#[trigger] events[j]).0 < b.slots.len() && events[j].1.target@
            == b.expected[events[j].0]
    &&& forall|i: int, j: int| 0 <= i < j < events.len() ==> (#[trigger] events[i]).0 != (#[trigger] events[j]).0
}

/// Some event offers a result for job `k`.
pub open spec fn has_event_for(events: Seq<(int, FpingHostResult)>, k: int) -> bool {
    exists|j: int| 0 <= j < events.len() && (#[trigger] events[j]).0 == k
}

/// On an empty board, offering one result per job in any order records each
/// of them at its own job: the board that results is the same for every
/// order in which the results arrive.
pub proof fn lemma_recording_each_job_once(b: BoardView, events: Seq<(int, FpingHostResult)>)
    requires
        b.well_formed(),
        forall|k: int| 0 <= k < b.slots.len() ==> (#[trigger] b.slots[k]) is None,
        events_fit(b, events),
    ensures
        recorded_all(b, events).well_formed(),
        recorded_all(b, events).expected == b.expected,
        recorded_all(b, events).slots.len() == b.slots.len(),
        forall|j: int| 0 <= j < events.len() ==> recorded_all(b, events).slots[(#[trigger] events[j]).0] == Some(events[j].1),
        forall|k: int|
            0 <= k < b.slots.len() && (#[trigger] recorded_all(b, events).slots[k]) is Some ==> exists|j: int|
                0 <= j < events.len() && (#[trigger] events[j]).0 == k,
    decreases events.len(),
{
    if events.len() > 0 {
        let prev = events.drop_last();
        assert(events_fit(b, prev)) by {
            assert forall|j: int| 0 <= j < prev.len() implies #[trigger] prev[j] == events[j] by {}
        }
        lemma_recording_each_job_once(b, prev);
        let p = recorded_all(b, prev);
        let n = events.len() - 1;
        let (i, r) = events.last();
        assert(events[n] == events.last());
        assert(p.slots[i] is None) by {
            if p.slots[i] is Some {
                let j = choose|j: int| 0 <= j < prev.len() && (#[trigger] prev[j]).0 == i;
                assert(prev[j] == events[j]);
                assert(events[j].0 != events[n].0);
            }
        }
        assert(p.accepts(i, r));
        let f = recorded_all(b, events);
        assert(f.slots == p.slots.update(i, Some(r)));
        assert forall|j: int| 0 <= j < events.len() implies f.slots[(#[trigger] events[j]).0] == Some(events[j].1) by {
            if j < n {
                assert(prev[j] == events[j]);
                assert(events[j].0 != events[n].0);
            }
        }
        assert forall|k: int|
            0 <= k < b.slots.len() && (#[trigger] f.slots[k]) is Some implies exists|j: int|
                0 <= j < events.len() && (#[trigger] events[j]).0 == k by {
            if k != i {
                assert(p.slots[k] is Some);
                let j = choose|j: int| 0 <= j < prev.len() && (#[trigger] prev[j]).0 == k;
                assert(prev[j] == events[j]);
            } else {
                assert(events[n].0 == k);
            }
        }
    }
}

/// A scan of `raw` whose workers offered, in any order, one result for each
/// of its sanitized jobs reports every sanitized target once, in sanitized
/// order, each with the result of its own probe.
pub proof fn lemma_scan_reports_each_probe_in_order(
    raw: Seq<Seq<char>>,
    jobs: Seq<ProbeJob>,
    b: BoardView,
    events: Seq<(int, FpingHostResult)>,
)
    requires
        jobs_match(jobs, sanitized(raw)),
        b.well_formed(),
        b.expected.len() == jobs.len(),
        forall|k: int| 0 <= k < jobs.len() ==> (#[trigger] b.expected[k]) == jobs[k].target@,
        forall|k: int| 0 <= k < b.slots.len() ==> (#[trigger] b.slots[k]) is None,
        events_fit(b, events),
        forall|k: int| 0 <= k < jobs.len() ==> #[trigger] has_event_for(events, k),
    ensures
        recorded_all(b, events).is_complete(),
        collected(recorded_all(b, events).slots).len() == sanitized(raw).len(),
        forall|k: int|
            0 <= k < sanitized(raw).len() ==> (#[trigger] collected(recorded_all(b, events).slots)[k]).target@
                == sanitized(raw)[k],
        forall|j: int|
            0 <= j < events.len() ==> collected(recorded_all(b, events).slots)[(#[trigger] events[j]).0]
                == events[j].1,
{
    lemma_recording_each_job_once(b, events);
    let f = recorded_all(b, events);
    assert forall|k: int| 0 <= k < f.slots.len() implies (#[trigger] f.slots[k]) is Some by {
        assert(has_event_for(events, k));
        let j = choose|j: int| 0 <= j < events.len() && (#[trigger] events[j]).0 == k;
        assert(f.slots[events[j].0] == Some(events[j].1));
    }
    lemma_complete_scan_reports_every_target(raw, jobs, f);
    lemma_complete_board_covers_jobs(f);
    assert forall|j: int| 0 <= j < events.len() implies collected(f.slots)[(#[trigger] events[j]).0] == events[j].1 by {
        assert(Some(collected(f.slots)[events[j].0]) == f.slots[events[j].0]);
    }
}

/// Results recorded for two different jobs leave the same board whichever
/// of them comes first.
pub proof fn lemma_record_order_is_irrelevant(
    b: BoardView,
    i: int,
    r: FpingHostResult,
    j: int,
    s: FpingHostResult,
)
    requires
        i != j,
    ensures
        b.recorded(i, r).recorded(j, s) == b.recorded(j, s).recorded(i, r),
{
    if b.accepts(i, r) && b.accepts(j, s) {
        assert(b.slots.update(i, Some(r)).update(j, Some(s)) == b.slots.update(j, Some(s)).update(i, Some(r)));
    }
}

/// A scan whose board holds a result for every job, on a board made for the
/// sanitized jobs of `raw`, reports each sanitized target exactly once, in
/// the order of the sanitized targets.
pub proof fn lemma_complete_scan_reports_every_target(
    raw: Seq<Seq<char>>,
    jobs: Seq<ProbeJob>,
    b: BoardView,
)
    requires
        jobs_match(jobs, sanitized(raw)),
        b.well_formed(),
        b.is_complete(),
        b.expected.len() == jobs.len(),
        forall|k: int| 0 <= k < jobs.len() ==> (#[trigger] b.expected[k]) == jobs[k].target@,
    ensures
        collected(b.slots).len() == sanitized(raw).len(),
        forall|k: int|
            0 <= k < sanitized(raw).len() ==> (#[trigger] collected(b.slots)[k]).target@ == sanitized(raw)[k],
{
    lemma_complete_board_covers_jobs(b);
    assert forall|k: int| 0 <= k < sanitized(raw).len() implies (#[trigger] collected(b.slots)[k]).target@
        == sanitized(raw)[k] by {
        assert(jobs[k].target@ == sanitized(raw)[k]);
        assert(b.expected[k] == jobs[k].target@);
    }
}

} // verus!
