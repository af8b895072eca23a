//! Write your own test scripts that look and behave like built-in tests.
//!
//! This library is the execution engine of a small test harness that mimics
//! `cargo test`: it filters a list of named test cases ([`filter_tests`]),
//! decides for each case whether it is run or ignored, produces the ordered
//! stream of lifecycle events of a run on the calling thread
//! ([`SerialRun`]) or hands the cases to the workers of a pool one at a
//! time ([`TaskQueue`]), folds the completed outcomes into a final
//! [`Conclusion`] ([`conclude`]) and writes the lines of a report.
use vstd::prelude::*;

pub mod args;
pub mod conclusion;
pub mod dispatch;
pub mod filter;
pub mod model;
pub mod pool;
pub mod report;
pub mod text;

pub use args::{Arguments, ColorSetting, FormatSetting};
pub use conclusion::{conclude, Conclusion};
pub use dispatch::{
    complete_test, is_effectively_ignored, run_tests_serialized, schedule, started_event,
    Schedule, SerialRun,
};
pub use filter::{filter_tests, is_filtered_in};
pub use model::{Outcome, RunnerEvent, Test};
pub use pool::TaskQueue;
pub use report::fmt_with_thousand_sep;
