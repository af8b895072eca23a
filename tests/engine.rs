use std::collections::HashSet;
use std::sync::atomic::{AtomicUsize, Ordering};

use libtest_mimic::dispatch::plan_schedule;
use libtest_mimic::report::{measurement_details, title_line};
use libtest_mimic::text::{chars_of, contains_chars};
use libtest_mimic::{
    complete_test, conclude, filter_tests, fmt_with_thousand_sep, is_effectively_ignored,
    is_filtered_in, run_tests_serialized, schedule, started_event, Arguments, ColorSetting,
    FormatSetting, Outcome, RunnerEvent, Schedule, SerialRun, TaskQueue, Test,
};

fn names<D>(tests: &[Test<D>]) -> Vec<String> {
    tests.iter().map(|t| t.name.clone()).collect()
}

#[test]
fn filter_substring_scenario() {
    let mut a = Arguments::default();
    a.filter_string = Some("ba".to_string());
    a.num_threads = Some(1);
    let cases: Vec<Test> = vec![Test::test("foo"), Test::test("bar"), Test::test("baz")];
    let (kept, filtered_out) = filter_tests(&a, cases);
    assert_eq!(names(&kept), vec!["bar", "baz"]);
    assert_eq!(filtered_out, 1);
    let events = run_tests_serialized(&a, kept, &|_: &Test| Outcome::Passed);
    let c = conclude(filtered_out, events);
    assert_eq!(
        [c.num_passed(), c.num_failed(), c.num_ignored(), c.num_benches(), c.num_filtered_out()],
        [2, 0, 0, 0, 1]
    );
}

#[test]
fn filtering_twice_changes_nothing() {
    let mut a = Arguments::default();
    a.filter_string = Some("a".to_string());
    a.skip = vec!["cat".to_string()];
    let cases: Vec<Test> = ["cat", "bat", "dog", "apple", "banana"].iter().map(|n| Test::test(n)).collect();
    let (once, out1) = filter_tests(&a, cases);
    assert_eq!(names(&once), vec!["bat", "apple", "banana"]);
    assert_eq!(out1, 2);
    let (twice, out2) = filter_tests(&a, once.clone());
    assert_eq!(names(&twice), names(&once));
    assert_eq!(out2, 0);
}

#[test]
fn exact_skip_only_drops_equal_names() {
    let mut a = Arguments::default();
    a.exact = true;
    a.skip = vec!["bar".to_string()];
    assert!(!is_filtered_in(&a, &"bar".to_string()));
    assert!(is_filtered_in(&a, &"barro".to_string()));
    a.exact = false;
    assert!(!is_filtered_in(&a, &"barro".to_string()));
}

#[test]
fn empty_filter_keeps_everything() {
    let mut a = Arguments::default();
    a.filter_string = Some(String::new());
    let cases: Vec<Test> = vec![Test::test("x"), Test::test("")];
    let (kept, out) = filter_tests(&a, cases);
    assert_eq!(kept.len(), 2);
    assert_eq!(out, 0);
    let (none, out) = filter_tests(&a, Vec::<Test>::new());
    assert!(none.is_empty());
    assert_eq!(out, 0);
}

#[test]
fn failing_test_is_listed_with_its_message() {
    let a = Arguments::default();
    let events = run_tests_serialized(&a, vec![Test::<()>::test("dog")], &|_: &Test| Outcome::Failed {
        msg: Some("bad boy".to_string()),
    });
    let c = conclude(0, events);
    assert_eq!(c.num_failed(), 1);
    assert!(c.has_failed());
    assert_eq!(c.failures(), &vec![("dog".to_string(), Some("bad boy".to_string()))]);
    assert_eq!(c.exit_code(), 101);
}

#[test]
fn benchmark_in_tests_only_run_is_ignored_without_running() {
    let mut a = Arguments::default();
    a.test = true;
    let calls = AtomicUsize::new(0);
    let run = |_: &Test| {
        calls.fetch_add(1, Ordering::SeqCst);
        Outcome::Measured { avg: 5, variance: 1 }
    };
    let b: Test = Test::bench("b");
    assert!(is_effectively_ignored(&a, &b));
    match complete_test(&a, b, &run) {
        RunnerEvent::Completed { outcome, test } => {
            assert_eq!(outcome, Outcome::Ignored);
            assert_eq!(test.name, "b");
        }
        _ => panic!("expected a completion"),
    }
    assert_eq!(calls.load(Ordering::SeqCst), 0);
}

#[test]
fn plain_test_in_benchmarks_only_run_is_ignored() {
    let mut a = Arguments::default();
    a.bench = true;
    let t: Test = Test::test("t");
    assert!(is_effectively_ignored(&a, &t));
    let b: Test = Test::bench("b");
    assert!(!is_effectively_ignored(&a, &b));
}

#[test]
fn ignored_test_never_runs() {
    let a = Arguments::default();
    let mut t: Test = Test::test("slow");
    t.is_ignored = true;
    let e = complete_test(&a, t, &|_: &Test| -> Outcome { panic!("must not run") });
    assert!(matches!(e, RunnerEvent::Completed { outcome: Outcome::Ignored, .. }));
    let mut included = Arguments::default();
    included.ignored = true;
    let mut t: Test = Test::test("slow");
    t.is_ignored = true;
    let e = complete_test(&included, t, &|_: &Test| Outcome::Passed);
    assert!(matches!(e, RunnerEvent::Completed { outcome: Outcome::Passed, .. }));
}

#[test]
fn serial_run_orders_events() {
    let a = Arguments::default();
    let cases: Vec<Test> = vec![Test::test("A"), Test::test("B"), Test::test("C")];
    let events = run_tests_serialized(&a, cases, &|_: &Test| Outcome::Passed);
    let seen: Vec<String> = events
        .iter()
        .map(|e| match e {
            RunnerEvent::Started { name, .. } => format!("Started({})", name),
            RunnerEvent::Completed { test, .. } => format!("Completed({})", test.name),
        })
        .collect();
    assert_eq!(
        seen,
        vec!["Started(A)", "Completed(A)", "Started(B)", "Completed(B)", "Started(C)", "Completed(C)"]
    );
}

#[test]
fn serial_run_announces_before_running() {
    let a = Arguments::default();
    let cases: Vec<Test> = vec![Test::test("one"), Test::test("two")];
    let ran = AtomicUsize::new(0);
    let run = |_: &Test| {
        ran.fetch_add(1, Ordering::SeqCst);
        Outcome::Passed
    };
    let mut r = SerialRun::new(&a, cases);
    assert!(matches!(r.next_event(&run), Some(RunnerEvent::Started { .. })));
    assert_eq!(ran.load(Ordering::SeqCst), 0);
    assert!(matches!(r.next_event(&run), Some(RunnerEvent::Completed { .. })));
    assert_eq!(ran.load(Ordering::SeqCst), 1);
    assert!(matches!(r.next_event(&run), Some(RunnerEvent::Started { .. })));
    assert!(matches!(r.next_event(&run), Some(RunnerEvent::Completed { .. })));
    assert!(r.next_event(&run).is_none());
    assert!(r.next_event(&run).is_none());
    assert_eq!(ran.load(Ordering::SeqCst), 2);
}

#[test]
fn tallies_add_up_to_the_tests_not_filtered_out() {
    let mut a = Arguments::default();
    a.skip = vec!["x".to_string()];
    let mut cases: Vec<Test<u8>> = Vec::new();
    for (i, n) in ["a", "xb", "c", "d", "e", "xf"].iter().enumerate() {
        let mut t: Test<u8> = if i == 4 { Test::bench(n) } else { Test::test(n) };
        t.data = i as u8;
        t.is_ignored = i == 3;
        cases.push(t);
    }
    let (kept, out) = filter_tests(&a, cases);
    let events = run_tests_serialized(&a, kept, &|t: &Test<u8>| match t.data {
        0 => Outcome::Passed,
        2 => Outcome::Failed { msg: None },
        _ => Outcome::Measured { avg: 1, variance: 0 },
    });
    let c = conclude(out, events);
    assert_eq!(c.num_filtered_out(), 2);
    assert_eq!([c.num_passed(), c.num_failed(), c.num_ignored(), c.num_benches()], [1, 1, 1, 1]);
    assert_eq!(c.num_passed() + c.num_failed() + c.num_ignored() + c.num_benches(), 6 - 2);
    assert_eq!(c.failures(), &vec![("c".to_string(), None)]);
}

#[test]
fn no_cases_conclusion_counts_filtered() {
    let mut a = Arguments::default();
    a.filter_string = Some("zzz".to_string());
    let (kept, out) = filter_tests(&a, vec![Test::<()>::test("a")]);
    let c = conclude(out, run_tests_serialized(&a, kept, &|_: &Test| Outcome::Passed));
    assert_eq!([c.num_filtered_out(), c.num_passed(), c.num_failed()], [1, 0, 0]);
    assert_eq!(c.exit_code(), 0);
    let l = libtest_mimic::Conclusion::listing();
    assert_eq!([l.num_filtered_out(), l.num_passed(), l.num_failed(), l.num_ignored(), l.num_benches()], [0; 5]);
    assert!(!l.has_failed());
}

/// Four workers share one queue; whenever a worker is free it claims the
/// next task, and tasks take different times.
#[test]
fn pool_of_four_runs_sixteen_tasks_once_each() {
    let mut queue = TaskQueue::new((0..16usize).collect());
    let mut free_at = [0usize; 4];
    let mut runs: Vec<(usize, usize)> = Vec::new();
    loop {
        let w = (0..4).min_by_key(|&w| (free_at[w], w)).unwrap();
        match queue.claim() {
            Some(task) => {
                free_at[w] += 1 + (task * 7 + w) % 5;
                runs.push((w, task));
            }
            None => break,
        }
    }
    let mut done: Vec<usize> = runs.iter().map(|&(_, t)| t).collect();
    assert_eq!(done.len(), 16);
    done.sort();
    assert_eq!(done, (0..16).collect::<Vec<_>>());
    let workers: HashSet<usize> = runs.iter().map(|&(w, _)| w).collect();
    assert_eq!(workers.len(), 4);
}

#[test]
fn queue_hands_out_in_order() {
    let mut q = TaskQueue::new(vec!['a', 'b', 'c']);
    assert_eq!(q.claim(), Some('a'));
    assert_eq!(q.claim(), Some('b'));
    assert_eq!(q.claim(), Some('c'));
    assert_eq!(q.claim(), None);
    let mut empty: TaskQueue<u8> = TaskQueue::new(Vec::new());
    assert_eq!(empty.claim(), None);
}

#[test]
fn pool_events_pair_up_per_test() {
    let a = Arguments::default();
    let cases: Vec<Test> = (0..8).map(|i| Test::test(&format!("t{}", i))).collect();
    let mut queue = TaskQueue::new(cases);
    let mut events: Vec<RunnerEvent<()>> = Vec::new();
    while let Some(t) = queue.claim() {
        events.push(started_event(&t));
        events.push(complete_test(&a, t, &|_: &Test| Outcome::Passed));
    }
    let mut started = HashSet::new();
    for e in &events {
        match e {
            RunnerEvent::Started { name, .. } => assert!(started.insert(name.clone())),
            RunnerEvent::Completed { test, .. } => assert!(started.contains(&test.name)),
        }
    }
    let c = conclude(0, events);
    assert_eq!(c.num_passed(), 8);
}

#[test]
fn schedule_follows_requested_threads() {
    let mut a = Arguments::default();
    a.num_threads = Some(1);
    assert_eq!(schedule(&a), Schedule::Serial);
    a.num_threads = Some(4);
    assert_eq!(schedule(&a), Schedule::Pool(4));
    a.num_threads = None;
    match schedule(&a) {
        Schedule::Serial => {}
        Schedule::Pool(n) => assert!(n >= 2),
    }
    assert_eq!(plan_schedule(None, 8), Schedule::Pool(8));
    assert_eq!(plan_schedule(Some(0), 8), Schedule::Pool(8));
    assert_eq!(plan_schedule(None, 1), Schedule::Serial);
    assert_eq!(plan_schedule(Some(1), 8), Schedule::Serial);
    assert_eq!(plan_schedule(Some(3), 1), Schedule::Pool(3));
}

#[test]
fn thousand_separators() {
    assert_eq!(fmt_with_thousand_sep(0), "0");
    assert_eq!(fmt_with_thousand_sep(999), "999");
    assert_eq!(fmt_with_thousand_sep(1000), "1,000");
    assert_eq!(fmt_with_thousand_sep(1_234_567), "1,234,567");
    assert_eq!(fmt_with_thousand_sep(10_005), "10,005");
    assert_eq!(fmt_with_thousand_sep(u64::MAX), "18,446,744,073,709,551,615");
}

#[test]
fn measurement_and_title_text() {
    assert_eq!(measurement_details(1024, 3), ":       1,024 ns/iter (+/- 3)");
    assert_eq!(title_line(1), "running 1 test");
    assert_eq!(title_line(0), "running 0 tests");
    assert_eq!(kind_room_of(""), 0);
}

fn kind_room_of(_: &str) -> usize {
    let t: Test = Test::test("n");
    libtest_mimic::report::column_widths(&vec![t]).1
}

#[test]
fn settings_parse_and_default() {
    assert_eq!(ColorSetting::parse("auto"), Ok(ColorSetting::Auto));
    assert_eq!(ColorSetting::parse("always"), Ok(ColorSetting::Always));
    assert_eq!("never".parse::<ColorSetting>(), Ok(ColorSetting::Never));
    assert!(ColorSetting::parse("sometimes").is_err());
    assert_eq!(FormatSetting::parse("pretty"), Ok(FormatSetting::Pretty));
    assert_eq!("json".parse::<FormatSetting>(), Ok(FormatSetting::Json));
    assert!(FormatSetting::parse("Terse").is_err());
    assert_eq!(ColorSetting::default(), ColorSetting::Auto);
    assert_eq!(FormatSetting::default(), FormatSetting::Pretty);
}

#[test]
fn character_helpers() {
    let hay = chars_of("héllo wörld");
    assert_eq!(hay.len(), 11);
    assert!(contains_chars(&hay, &chars_of("ö")));
    assert!(contains_chars(&hay, &chars_of("")));
    assert!(!contains_chars(&hay, &chars_of("world")));
    assert!(contains_chars(&chars_of("ab"), &chars_of("ab")));
    assert!(!contains_chars(&chars_of("ab"), &chars_of("abc")));
}

#[test]
fn builders_set_flags() {
    let t: Test<u32> = Test::test("t");
    assert_eq!((t.name.as_str(), t.kind.as_str(), t.is_ignored, t.is_bench, t.data), ("t", "", false, false, 0));
    let b: Test<u32> = Test::bench("b");
    assert!(b.is_bench && !b.is_ignored);
}
