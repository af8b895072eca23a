//! The dispatch core: which tests are run and which are ignored, and the
//! ordered event stream of a run on the calling thread.
use vstd::prelude::*;

use crate::args::Arguments;
use crate::model::{Outcome, RunnerEvent, Test};

verus! {

/// `t` is ignored without being run: it is marked ignored and ignored tests
/// are not requested, or it is a benchmark in a tests-only run, or a plain
/// test in a benchmarks-only run.
pub open spec fn is_skipped<D>(args: Arguments, t: Test<D>) -> bool {
    ||| (t.is_ignored && !args.ignored)
    ||| (t.is_bench && args.test)
    ||| (!t.is_bench && args.bench)
}

/// The event that announces `t`.
pub open spec fn start_of<D>(t: Test<D>) -> RunnerEvent<D> {
    RunnerEvent::Started { name: t.name, kind: t.kind }
}

/// `e` completes `t`: with `Ignored` when `t` is skipped, and otherwise with
/// an outcome that `run_test` may return for `t`.
pub open spec fn completes<D, F: Fn(&Test<D>) -> Outcome>(
    args: Arguments,
    t: Test<D>,
    run_test: F,
    e: RunnerEvent<D>,
) -> bool {
    &&& e matches RunnerEvent::Completed { test, outcome }
    &&& e->test == t
    &&& if is_skipped(args, t) {
        e->outcome == Outcome::Ignored
    } else {
        call_ensures(run_test, (&t,), e->outcome)
    }
}

/// `e` is the event at position `k` of a run of `tests` on one thread: the
/// test at `k / 2` is announced at an even position and completed right
/// after it.
pub open spec fn serial_slot<D, F: Fn(&Test<D>) -> Outcome>(
    args: Arguments,
    tests: Seq<Test<D>>,
    run_test: F,
    k: int,
    e: RunnerEvent<D>,
) -> bool {
    if k % 2 == 0 {
        e == start_of(tests[k / 2])
    } else {
        completes(args, tests[k / 2], run_test, e)
    }
}

/// `run_test` may be called on every test.
pub open spec fn accepts_all<D, F: Fn(&Test<D>) -> Outcome>(run_test: F) -> bool {
    forall|t: &Test<D>| call_requires(run_test, (t,))
}

/// Whether `test` is ignored without being run under `args`.
pub fn is_effectively_ignored<D>(args: &Arguments, test: &Test<D>) -> (r: bool)
    ensures
        r == is_skipped(*args, *test),
{
    (test.is_ignored && !args.ignored) || (test.is_bench && args.test) || (!test.is_bench
        && args.bench)
}

/// The event that announces `test`.
pub fn started_event<D>(test: &Test<D>) -> (e: RunnerEvent<D>)
    ensures
        e == start_of(*test),
{
    RunnerEvent::Started { name: test.name.clone(), kind: test.kind.clone() }
}

/// Runs `test` unless it is to be ignored, and returns the event that
/// completes it. A test that is ignored is never handed to `run_test`.
pub fn complete_test<D, F: Fn(&Test<D>) -> Outcome>(
    args: &Arguments,
    test: Test<D>,
    run_test: &F,
) -> (e: RunnerEvent<D>)
    requires
        !is_skipped(*args, test) ==> call_requires(*run_test, (&test,)),
    ensures
        completes(*args, test, *run_test, e),
{
    let outcome = if is_effectively_ignored(args, &test) {
        Outcome::Ignored
    } else {
        run_test(&test)
    };
    RunnerEvent::Completed { test, outcome }
}

/// An ignored test is never run when ignored tests are not requested: it
/// completes as `Ignored` whatever `run_test` would have returned for it.
pub proof fn lemma_ignored_test_completes_ignored<D, F: Fn(&Test<D>) -> Outcome>(
    args: Arguments,
    t: Test<D>,
    run_test: F,
    e: RunnerEvent<D>,
)
    requires
        t.is_ignored,
        !args.ignored,
        completes(args, t, run_test, e),
    ensures
        e->outcome == Outcome::Ignored,
{
}

/// In a run on the calling thread every completion comes right after the
/// announcement of the same test, and every announcement right before its
/// completion.
pub proof fn lemma_serial_started_before_completed<D, F: Fn(&Test<D>) -> Outcome>(
    args: Arguments,
    tests: Seq<Test<D>>,
    run_test: F,
    events: Seq<RunnerEvent<D>>,
)
    requires
        events.len() == 2 * tests.len(),
        forall|k: int|
            0 <= k < events.len() ==> serial_slot(args, tests, run_test, k, #[trigger] events[k]),
    ensures
        forall|k: int|
            0 <= k < events.len() && (#[trigger] events[k] is Completed) ==> {
                &&& k >= 1
                &&& events[k - 1] == start_of(events[k]->test)
            },
        forall|k: int|
            0 <= k < events.len() && (#[trigger] events[k] is Started) ==> {
                &&& k + 1 < events.len()
                &&& events[k] == start_of(events[k + 1]->test)
            },
{
    assert forall|k: int| 0 <= k < events.len() && (#[trigger] events[k] is Completed) implies {
        &&& k >= 1
        &&& events[k - 1] == start_of(events[k]->test)
    } by {
        assert(serial_slot(args, tests, run_test, k, events[k]));
        assert(k % 2 == 1);
        assert(serial_slot(args, tests, run_test, k - 1, events[k - 1]));
        assert((k - 1) % 2 == 0 && (k - 1) / 2 == k / 2);
    }
    assert forall|k: int| 0 <= k < events.len() && (#[trigger] events[k] is Started) implies {
        &&& k + 1 < events.len()
        &&& events[k] == start_of(events[k + 1]->test)
    } by {
        assert(serial_slot(args, tests, run_test, k, events[k]));
        assert(k % 2 == 0);
        assert((k + 1) % 2 == 1 && (k + 1) / 2 == k / 2);
        assert(k + 1 < events.len());
        assert(serial_slot(args, tests, run_test, k + 1, events[k + 1]));
    }
}

/// The events of a run of a list of tests on the calling thread, handed out
/// one at a time: each test is announced, then run (or ignored) and
/// completed, before the next test is announced.
pub struct SerialRun<'a, D> {
    args: &'a Arguments,
    /// The tests not completed yet, the next one last.
    pending: Vec<Test<D>>,
    /// Whether the next pending test has been announced.
    announced: bool,
    tests: Ghost<Seq<Test<D>>>,
    emitted: Ghost<nat>,
}

impl<'a, D> SerialRun<'a, D> {
    /// The tests of the run, in order.
    pub closed spec fn tests(&self) -> Seq<Test<D>> {
        self.tests@
    }

    /// The arguments of the run.
    pub closed spec fn args(&self) -> Arguments {
        *self.args
    }

    /// How many events have been handed out so far.
    pub closed spec fn emitted(&self) -> nat {
        self.emitted@
    }

    /// The run is consistent: the pending tests are the tests from the first
    /// one not completed yet, and two events were handed out for each
    /// completed test, plus one if the next one is announced.
    pub closed spec fn wf(&self) -> bool {
        let n = self.tests@.len();
        let done = n - self.pending@.len();
        &&& self.pending@.len() <= n
        &&& self.emitted@ == 2 * done + if self.announced { 1int } else { 0int }
        &&& self.announced ==> self.pending@.len() > 0
        &&& forall|i: int|
            0 <= i < self.pending@.len() ==> #[trigger] self.pending@[i] == self.tests@[n - 1 - i]
    }

    /// Starts a run of `tests` under `args`; no event is handed out yet.
    pub fn new(args: &'a Arguments, tests: Vec<Test<D>>) -> (r: Self)
        ensures
            r.wf(),
            r.tests() == tests@,
            r.args() == *args,
            r.emitted() == 0,
    {
        let ghost all = tests@;
        let mut tests = tests;
        let mut pending: Vec<Test<D>> = Vec::new();
        while tests.len() > 0
            invariant
                tests@.len() + pending@.len() == all.len(),
                tests@ == all.take(tests@.len() as int),
                forall|i: int|
                    0 <= i < pending@.len() ==> #[trigger] pending@[i] == all[all.len() - 1 - i],
            decreases tests.len(),
        {
            let t = tests.pop().unwrap();
            pending.push(t);
        }
        SerialRun { args, pending, announced: false, tests: Ghost(all), emitted: Ghost(0) }
    }

    /// Hands out the next event of the run, running the next test with
    /// `run_test` when its completion is due; `None` once every test has
    /// been completed.
    pub fn next_event<F: Fn(&Test<D>) -> Outcome>(&mut self, run_test: &F) -> (r: Option<
        RunnerEvent<D>,
    >)
        requires
            old(self).wf(),
            accepts_all::<D, F>(*run_test),
        ensures
            final(self).wf(),
            final(self).tests() == old(self).tests(),
            final(self).args() == old(self).args(),
            old(self).emitted() < 2 * old(self).tests().len() ==> {
                &&& r matches Some(e)
                &&& serial_slot(old(self).args(), old(self).tests(), *run_test, old(self).emitted() as int, e)
                &&& final(self).emitted() == old(self).emitted() + 1
            },
            old(self).emitted() >= 2 * old(self).tests().len() ==> {
                &&& r is None
                &&& final(self).emitted() == old(self).emitted()
            },
    {
        let ghost n = self.tests@.len();
        let len = self.pending.len();
        if len == 0 {
            return None;
        }
        if !self.announced {
            let e = started_event(&self.pending[len - 1]);
            self.announced = true;
            self.emitted = Ghost(self.emitted@ + 1);
            proof {
                let k = old(self).emitted@ as int;
                assert(k / 2 == n - len);
                assert(self.pending@[len - 1] == self.tests@[n - 1 - (len - 1)]);
            }
            Some(e)
        } else {
            let t = self.pending.pop().unwrap();
            self.announced = false;
            self.emitted = Ghost(self.emitted@ + 1);
            proof {
                let k = old(self).emitted@ as int;
                assert(k / 2 == n - len);
                assert(t == old(self).pending@[len - 1]);
                assert(t == self.tests@[k / 2]);
                assert forall|i: int| 0 <= i < self.pending@.len() implies #[trigger] self.pending@[i]
                    == self.tests@[n - 1 - i] by {
                    assert(self.pending@[i] == old(self).pending@[i]);
                }
            }
            Some(complete_test(self.args, t, run_test))
        }
    }
}

/// Runs `tests` one by one on the calling thread and returns all events in
/// the order in which they happened: each test is announced, then completed,
/// before the next one is announced.
pub fn run_tests_serialized<D, F: Fn(&Test<D>) -> Outcome>(
    args: &Arguments,
    tests: Vec<Test<D>>,
    run_test: &F,
) -> (events: Vec<RunnerEvent<D>>)
    requires
        accepts_all::<D, F>(*run_test),
    ensures
        events@.len() == 2 * tests@.len(),
        forall|k: int|
            0 <= k < events@.len() ==> serial_slot(*args, tests@, *run_test, k, #[trigger] events@[k]),
{
    let ghost all = tests@;
    let mut run = SerialRun::new(args, tests);
    let mut events: Vec<RunnerEvent<D>> = Vec::new();
    loop
        invariant
            run.wf(),
            run.tests() == all,
            run.args() == *args,
            accepts_all::<D, F>(*run_test),
            events@.len() == run.emitted(),
            run.emitted() <= 2 * all.len(),
            forall|k: int|
                0 <= k < events@.len() ==> serial_slot(*args, all, *run_test, k, #[trigger] events@[k]),
        ensures
            events@.len() == 2 * all.len(),
            forall|k: int|
                0 <= k < events@.len() ==> serial_slot(*args, all, *run_test, k, #[trigger] events@[k]),
        decreases 2 * all.len() - run.emitted(),
    {
        match run.next_event(run_test) {
            Some(e) => {
                events.push(e);
            },
            None => {
                break;
            },
        }
    }
    events
}

/// How the tests of a run are executed.
#[derive(Debug, Clone, Copy, PartialEq, Eq, Structural)]
pub enum Schedule {
    /// One by one, in order, on the calling thread.
    Serial,
    /// On a pool of that many worker threads, at least two.
    Pool(usize),
}

/// The schedule for a requested number of threads, where `available` threads
/// are used when none (or zero) is requested: one thread means a run on the
/// calling thread, more mean a pool.
pub open spec fn schedule_for(requested: Option<u32>, available: nat) -> Schedule {
    match requested {
        Some(n) if n == 1 => Schedule::Serial,
        Some(n) if n >= 2 => Schedule::Pool(n as usize),
        _ => if available >= 2 {
            Schedule::Pool(available as usize)
        } else {
            Schedule::Serial
        },
    }
}

/// Relies on rayon::current_num_threads: the number of threads of rayon's
/// global pool, which rayon sizes from the machine's available parallelism
/// (or from RAYON_NUM_THREADS) and never leaves empty. Asking starts that
/// pool if nothing has started it yet.
#[verifier::external_body]
fn available_threads() -> (r: usize)
    ensures
        r >= 1,
{
    rayon::current_num_threads()
}

/// Chooses the schedule for a requested number of threads, given the number
/// of threads that is used when none is requested.
pub fn plan_schedule(requested: Option<u32>, available: usize) -> (r: Schedule)
    ensures
        r == schedule_for(requested, available as nat),
{
    match requested {
        Some(n) if n == 1 => Schedule::Serial,
        Some(n) if n >= 2 => Schedule::Pool(n as usize),
        _ => if available >= 2 {
            Schedule::Pool(available)
        } else {
            Schedule::Serial
        },
    }
}

/// Chooses the schedule of a run under `args`: on the calling thread when
/// one thread is requested, on a pool of the requested size when more are,
/// and on as many threads as the machine offers when none is requested.
pub fn schedule(args: &Arguments) -> (r: Schedule)
    ensures
        args.num_threads == Some(1u32) ==> r == Schedule::Serial,
        args.num_threads matches Some(n) ==> (n >= 2 ==> r == Schedule::Pool(n as usize)),
        exists|available: nat| available >= 1 && r == schedule_for(args.num_threads, available),
{
    if args.num_threads == Some(1u32) {
        assert(Schedule::Serial == schedule_for(args.num_threads, 1));
        return Schedule::Serial;
    }
    let available = available_threads();
    plan_schedule(args.num_threads, available)
}

} // verus!
