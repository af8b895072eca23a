//! The data that describes a test case, the result of running one, and the
//! lifecycle events of a run.
use vstd::prelude::*;

verus! {

/// Description of a single test.
#[derive(Clone, Debug)]
pub struct Test<D = ()> {
    /// The name of the test. It's displayed in the output and used for all
    /// kinds of filtering.
    pub name: String,
    /// Optional string to describe the kind of test. If this string is not
    /// empty, it is printed in brackets before the test name (e.g.
    /// `test [my-kind] test_name`).
    pub kind: String,
    /// Whether or not this test should be ignored. If the `--ignored` flag is
    /// set, ignored tests are executed, too.
    pub is_ignored: bool,
    /// Whether this test is actually a benchmark.
    pub is_bench: bool,
    /// Custom data. This field is not used by this library and can instead be
    /// used to store arbitrary data per test.
    pub data: D,
}

impl<D: Default> Test<D> {
    /// Creates a test with the given name, an empty `kind` and default data.
    /// The test is not ignored and is not a benchmark.
    pub fn test(name: &str) -> (t: Self)
        ensures
            t.name@ == name@,
            t.kind@.len() == 0,
            !t.is_ignored,
            !t.is_bench,
    {
        Test { name: name.to_owned(), kind: String::new(), is_ignored: false, is_bench: false, data: D::default() }
    }

    /// Creates a benchmark with the given name, an empty `kind` and default
    /// data. The benchmark is not ignored.
    pub fn bench(name: &str) -> (t: Self)
        ensures
            t.name@ == name@,
            t.kind@.len() == 0,
            !t.is_ignored,
            t.is_bench,
    {
        Test { name: name.to_owned(), kind: String::new(), is_ignored: false, is_bench: true, data: D::default() }
    }
}

/// The outcome of performing a test.
#[derive(Debug, Clone, PartialEq, Eq)]
pub enum Outcome {
    /// The test passed.
    Passed,
    /// The test or benchmark failed (either compiler error or panicked).
    Failed {
        /// A message that is shown after all tests have been run.
        msg: Option<String>,
    },
    /// The test or benchmark was ignored.
    Ignored,
    /// The benchmark was successfully run.
    Measured {
        /// Average time in ns.
        avg: u64,
        /// Variance in ns.
        variance: u64,
    },
}

/// Event indicating that a given test has started running or has completed.
#[derive(Debug)]
pub enum RunnerEvent<D> {
    Started {
        /// Name of the corresponding test.
        name: String,
        /// Kind of the corresponding test.
        kind: String,
    },
    Completed {
        /// Corresponding test.
        test: Test<D>,
        /// Outcome of having run the test.
        outcome: Outcome,
    },
}

} // verus!
