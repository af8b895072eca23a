//! The outcome aggregator: folds the completed events of a run into the
//! final tallies and the list of failures.
use vstd::prelude::*;

use crate::args::Arguments;
use crate::dispatch::serial_slot;
use crate::filter::survivors;
use crate::model::{Outcome, RunnerEvent, Test};

verus! {

/// Name and outcome of each completed test among `events`, in the order of
/// the events; announcements are left out.
pub open spec fn completed_of<D>(events: Seq<RunnerEvent<D>>) -> Seq<(String, Outcome)>
    decreases events.len(),
{
    if events.len() == 0 {
        Seq::empty()
    } else {
        let rest = completed_of(events.drop_last());
        match events.last() {
            RunnerEvent::Completed { test, outcome } => rest.push((test.name, outcome)),
            RunnerEvent::Started { .. } => rest,
        }
    }
}

/// How many of the results passed.
pub open spec fn count_passed(rs: Seq<(String, Outcome)>) -> nat
    decreases rs.len(),
{
    if rs.len() == 0 {
        0
    } else {
        count_passed(rs.drop_last()) + if rs.last().1 is Passed { 1nat } else { 0nat }
    }
}

/// How many of the results were ignored.
pub open spec fn count_ignored(rs: Seq<(String, Outcome)>) -> nat
    decreases rs.len(),
{
    if rs.len() == 0 {
        0
    } else {
        count_ignored(rs.drop_last()) + if rs.last().1 is Ignored { 1nat } else { 0nat }
    }
}

/// How many of the results are measurements.
pub open spec fn count_measured(rs: Seq<(String, Outcome)>) -> nat
    decreases rs.len(),
{
    if rs.len() == 0 {
        0
    } else {
        count_measured(rs.drop_last()) + if rs.last().1 is Measured { 1nat } else { 0nat }
    }
}

/// Name and message of each failed result, in order.
pub open spec fn failures_of(rs: Seq<(String, Outcome)>) -> Seq<(String, Option<String>)>
    decreases rs.len(),
{
    if rs.len() == 0 {
        Seq::empty()
    } else {
        let rest = failures_of(rs.drop_last());
        match rs.last().1 {
            Outcome::Failed { msg } => rest.push((rs.last().0, msg)),
            _ => rest,
        }
    }
}

/// What a conclusion states.
pub struct ConclusionView {
    pub has_failed: bool,
    pub num_filtered_out: nat,
    pub num_passed: nat,
    pub num_failed: nat,
    pub num_ignored: nat,
    pub num_measured: nat,
    pub failures: Seq<(String, Option<String>)>,
}

/// The conclusion of a run in which `num_filtered_out` tests were filtered
/// out and the tests with results `rs` were completed.
pub open spec fn conclusion_of(num_filtered_out: nat, rs: Seq<(String, Outcome)>) -> ConclusionView {
    ConclusionView {
        has_failed: failures_of(rs).len() > 0,
        num_filtered_out,
        num_passed: count_passed(rs),
        num_failed: failures_of(rs).len(),
        num_ignored: count_ignored(rs),
        num_measured: count_measured(rs),
        failures: failures_of(rs),
    }
}

/// Contains information about the entire test run. Is returned by
/// [`conclude`].
#[derive(Clone, Debug)]
#[must_use]
pub struct Conclusion {
    has_failed: bool,
    num_filtered_out: u64,
    num_passed: u64,
    num_failed: u64,
    num_ignored: u64,
    num_benches: u64,
    failures: Vec<(String, Option<String>)>,
}

impl View for Conclusion {
    type V = ConclusionView;

    closed spec fn view(&self) -> ConclusionView {
        ConclusionView {
            has_failed: self.has_failed,
            num_filtered_out: self.num_filtered_out as nat,
            num_passed: self.num_passed as nat,
            num_failed: self.num_failed as nat,
            num_ignored: self.num_ignored as nat,
            num_measured: self.num_benches as nat,
            failures: self.failures@,
        }
    }
}

impl Conclusion {
    /// The conclusion of an invocation that only lists the tests: nothing
    /// ran, nothing is counted.
    pub fn listing() -> (c: Conclusion)
        ensures
            c@ == conclusion_of(0, Seq::empty()),
    {
        Conclusion {
            has_failed: false,
            num_filtered_out: 0,
            num_passed: 0,
            num_failed: 0,
            num_ignored: 0,
            num_benches: 0,
            failures: Vec::new(),
        }
    }

    /// Returns whether or not there have been any failures.
    pub fn has_failed(&self) -> (r: bool)
        ensures
            r == self@.has_failed,
    {
        self.has_failed
    }

    /// Returns how many tests were filtered out (either by the filter-in
    /// pattern or by `--skip` arguments).
    pub fn num_filtered_out(&self) -> (r: u64)
        ensures
            r == self@.num_filtered_out,
    {
        self.num_filtered_out
    }

    /// Returns how many tests passed.
    pub fn num_passed(&self) -> (r: u64)
        ensures
            r == self@.num_passed,
    {
        self.num_passed
    }

    /// Returns how many tests failed.
    pub fn num_failed(&self) -> (r: u64)
        ensures
            r == self@.num_failed,
    {
        self.num_failed
    }

    /// Returns how many tests were ignored.
    pub fn num_ignored(&self) -> (r: u64)
        ensures
            r == self@.num_ignored,
    {
        self.num_ignored
    }

    /// Returns how many benchmarks were successfully run.
    pub fn num_benches(&self) -> (r: u64)
        ensures
            r == self@.num_measured,
    {
        self.num_benches
    }

    /// The failed tests, by name, with their messages, in the order in which
    /// they completed.
    pub fn failures(&self) -> (r: &Vec<(String, Option<String>)>)
        ensures
            r@ == self@.failures,
    {
        &self.failures
    }

    /// The exit code of the process by convention: 0 if all tests have
    /// passed, 101 if there have been failures.
    pub fn exit_code(&self) -> (r: i32)
        ensures
            r == if self@.has_failed { 101i32 } else { 0i32 },
    {
        if self.has_failed {
            101
        } else {
            0
        }
    }
}

proof fn lemma_counts_bounded(rs: Seq<(String, Outcome)>)
    ensures
        count_passed(rs) + failures_of(rs).len() + count_ignored(rs) + count_measured(rs)
            == rs.len(),
    decreases rs.len(),
{
    if rs.len() > 0 {
        lemma_counts_bounded(rs.drop_last());
    }
}

/// Folds the events of a run into its conclusion: each completed test is
/// counted by its outcome, each failure is listed with its message, and
/// `num_filtered_out` is taken as it is.
pub fn conclude<D>(num_filtered_out: u64, events: Vec<RunnerEvent<D>>) -> (c: Conclusion)
    ensures
        c@ == conclusion_of(num_filtered_out as nat, completed_of(events@)),
{
    let ghost all = events@;
    let mut num_passed: u64 = 0;
    let mut num_ignored: u64 = 0;
    let mut num_benches: u64 = 0;
    let mut failures: Vec<(String, Option<String>)> = Vec::new();
    let n = events.len();
    for e in it: events.into_iter()
        invariant
            it.seq() == all,
            all.len() == n,
            completed_of(all.take(it.index() as int)).len() <= it.index(),
            num_passed == count_passed(completed_of(all.take(it.index() as int))),
            num_ignored == count_ignored(completed_of(all.take(it.index() as int))),
            num_benches == count_measured(completed_of(all.take(it.index() as int))),
            failures@ == failures_of(completed_of(all.take(it.index() as int))),
    {
        let ghost i = it.index() as int;
        proof {
            assert(all.take(i + 1).drop_last() =~= all.take(i));
            assert(all.take(i + 1).last() == all[i]);
            let rs = completed_of(all.take(i));
            lemma_counts_bounded(rs);
            assert forall|x: (String, Outcome)| #[trigger] rs.push(x).drop_last() == rs by {
                assert(rs.push(x).drop_last() =~= rs);
            }
        }
        match e {
            RunnerEvent::Started { .. } => {},
            RunnerEvent::Completed { test, outcome } => {
                match outcome {
                    Outcome::Passed => {
                        num_passed = num_passed + 1;
                    },
                    Outcome::Failed { msg } => {
                        failures.push((test.name, msg));
                    },
                    Outcome::Ignored => {
                        num_ignored = num_ignored + 1;
                    },
                    Outcome::Measured { .. } => {
                        num_benches = num_benches + 1;
                    },
                }
            },
        }
    }
    proof {
        assert(all.take(all.len() as int) =~= all);
    }
    let num_failed = failures.len() as u64;
    Conclusion {
        has_failed: num_failed != 0,
        num_filtered_out,
        num_passed,
        num_failed,
        num_ignored,
        num_benches,
        failures,
    }
}

/// In a full run every test is either filtered out or counted exactly once,
/// as passed, failed, ignored or measured: when each test that survives the
/// filters of `args` completes once among `events`, the four tallies of the
/// conclusion add up to the number of tests less those filtered out.
pub proof fn lemma_run_partition<D>(args: Arguments, tests: Seq<Test<D>>, events: Seq<RunnerEvent<D>>)
    requires
        completed_of(events).len() == survivors(args, tests).len(),
    ensures
        ({
            let c = conclusion_of(
                (tests.len() - survivors(args, tests).len()) as nat,
                completed_of(events),
            );
            c.num_passed + c.num_failed + c.num_ignored + c.num_measured == tests.len()
                - c.num_filtered_out
        }),
{
    tests.lemma_filter_len(crate::filter::kept_by::<D>(args));
    lemma_counts_bounded(completed_of(events));
}

proof fn lemma_serial_prefix<D, F: Fn(&Test<D>) -> Outcome>(
    args: Arguments,
    tests: Seq<Test<D>>,
    run_test: F,
    events: Seq<RunnerEvent<D>>,
    m: int,
)
    requires
        0 <= m <= tests.len(),
        events.len() == 2 * tests.len(),
        forall|k: int|
            0 <= k < events.len() ==> serial_slot(args, tests, run_test, k, #[trigger] events[k]),
    ensures
        completed_of(events.take(2 * m)).len() == m,
        forall|i: int|
            0 <= i < m ==> (#[trigger] completed_of(events.take(2 * m))[i]).0 == tests[i].name,
    decreases m,
{
    if m == 0 {
        assert(events.take(0) =~= Seq::<RunnerEvent<D>>::empty());
    } else {
        let j = m - 1;
        lemma_serial_prefix(args, tests, run_test, events, j);
        assert(events.take(2 * m).drop_last() =~= events.take(2 * j + 1));
        assert(events.take(2 * j + 1).drop_last() =~= events.take(2 * j));
        assert((2 * j) % 2 == 0 && (2 * j) / 2 == j);
        assert((2 * j + 1) % 2 == 1 && (2 * j + 1) / 2 == j);
        assert(serial_slot(args, tests, run_test, 2 * j, events[2 * j]));
        assert(serial_slot(args, tests, run_test, 2 * j + 1, events[2 * j + 1]));
        assert(events.take(2 * j + 1).last() == events[2 * j]);
        assert(events.take(2 * m).last() == events[2 * j + 1]);
        let before = completed_of(events.take(2 * j));
        assert(completed_of(events.take(2 * j + 1)) == before);
        let after = completed_of(events.take(2 * m));
        assert(after == before.push((tests[j].name, events[2 * j + 1]->outcome)));
        assert forall|i: int| 0 <= i < m implies (#[trigger] after[i]).0 == tests[i].name by {
            if i < j {
                assert(after[i] == before[i]);
            }
        }
    }
}

/// A run on the calling thread completes each of its tests exactly once, in
/// their order.
pub proof fn lemma_serial_completes_each<D, F: Fn(&Test<D>) -> Outcome>(
    args: Arguments,
    tests: Seq<Test<D>>,
    run_test: F,
    events: Seq<RunnerEvent<D>>,
)
    requires
        events.len() == 2 * tests.len(),
        forall|k: int|
            0 <= k < events.len() ==> serial_slot(args, tests, run_test, k, #[trigger] events[k]),
    ensures
        completed_of(events).len() == tests.len(),
        forall|i: int|
            0 <= i < tests.len() ==> (#[trigger] completed_of(events)[i]).0 == tests[i].name,
{
    lemma_serial_prefix(args, tests, run_test, events, tests.len() as int);
    assert(events.take(2 * tests.len() as int) =~= events);
}

/// The partition of a full run holds for a run on the calling thread of the
/// tests that survive the filters: the tallies of its conclusion add up to
/// the number of tests less those filtered out.
pub proof fn lemma_serial_run_partition<D, F: Fn(&Test<D>) -> Outcome>(
    args: Arguments,
    tests: Seq<Test<D>>,
    run_test: F,
    events: Seq<RunnerEvent<D>>,
)
    requires
        events.len() == 2 * survivors(args, tests).len(),
        forall|k: int|
            0 <= k < events.len() ==> serial_slot(
                args,
                survivors(args, tests),
                run_test,
                k,
                #[trigger] events[k],
            ),
    ensures
        ({
            let c = conclusion_of(
                (tests.len() - survivors(args, tests).len()) as nat,
                completed_of(events),
            );
            c.num_passed + c.num_failed + c.num_ignored + c.num_measured == tests.len()
                - c.num_filtered_out
        }),
{
    lemma_serial_completes_each(args, survivors(args, tests), run_test, events);
    lemma_run_partition(args, tests, events);
}

} // verus!
