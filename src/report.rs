//! The text of a report: numbers, column widths and the lines that a
//! printer writes for a run.
use vstd::prelude::*;

use crate::conclusion::Conclusion;
use crate::model::{Outcome, Test};

verus! {

/// The decimal digit `d` (below ten) as text.
pub open spec fn digit_text(d: nat) -> Seq<char> {
    if d == 0 {
        "0"@
    } else if d == 1 {
        "1"@
    } else if d == 2 {
        "2"@
    } else if d == 3 {
        "3"@
    } else if d == 4 {
        "4"@
    } else if d == 5 {
        "5"@
    } else if d == 6 {
        "6"@
    } else if d == 7 {
        "7"@
    } else if d == 8 {
        "8"@
    } else {
        "9"@
    }
}

/// `v` in decimal, without leading zeros.
pub open spec fn decimal(v: nat) -> Seq<char>
    decreases v,
{
    if v < 10 {
        digit_text(v)
    } else {
        decimal(v / 10) + digit_text(v % 10)
    }
}

/// `v` (below a thousand) in exactly three decimal digits.
pub open spec fn three_digits(v: nat) -> Seq<char> {
    digit_text(v / 100) + digit_text((v / 10) % 10) + digit_text(v % 10)
}

/// `v` in decimal with `,` between groups of three digits.
pub open spec fn with_thousand_sep(v: nat) -> Seq<char>
    decreases v,
{
    if v < 1000 {
        decimal(v)
    } else {
        with_thousand_sep(v / 1000) + ","@ + three_digits(v % 1000)
    }
}

/// `n` spaces.
pub open spec fn spaces(n: nat) -> Seq<char> {
    Seq::new(n, |i: int| ' ')
}

/// `s` followed by spaces up to `width` characters.
pub open spec fn pad_right(s: Seq<char>, width: nat) -> Seq<char> {
    if s.len() < width {
        s + spaces((width - s.len()) as nat)
    } else {
        s
    }
}

/// Spaces up to `width` characters, followed by `s`.
pub open spec fn pad_left(s: Seq<char>, width: nat) -> Seq<char> {
    if s.len() < width {
        spaces((width - s.len()) as nat) + s
    } else {
        s
    }
}

fn push_digit(out: &mut String, d: u64)
    requires
        d < 10,
    ensures
        final(out)@ == old(out)@ + digit_text(d as nat),
{
    let t = if d == 0 {
        "0"
    } else if d == 1 {
        "1"
    } else if d == 2 {
        "2"
    } else if d == 3 {
        "3"
    } else if d == 4 {
        "4"
    } else if d == 5 {
        "5"
    } else if d == 6 {
        "6"
    } else if d == 7 {
        "7"
    } else if d == 8 {
        "8"
    } else {
        "9"
    };
    out.append(t);
}

fn push_decimal(out: &mut String, v: u64)
    ensures
        final(out)@ == old(out)@ + decimal(v as nat),
    decreases v,
{
    if v < 10 {
        push_digit(out, v);
    } else {
        push_decimal(out, v / 10);
        push_digit(out, v % 10);
        assert(final(out)@ =~= old(out)@ + decimal(v as nat));
    }
}

fn push_with_thousand_sep(out: &mut String, v: u64)
    ensures
        final(out)@ == old(out)@ + with_thousand_sep(v as nat),
    decreases v,
{
    if v < 1000 {
        push_decimal(out, v);
    } else {
        push_with_thousand_sep(out, v / 1000);
        out.append(",");
        let r = v % 1000;
        push_digit(out, r / 100);
        push_digit(out, (r / 10) % 10);
        push_digit(out, r % 10);
        assert(final(out)@ =~= old(out)@ + with_thousand_sep(v as nat));
    }
}

/// Formats the given integer with `,` as thousand separator.
pub fn fmt_with_thousand_sep(v: u64) -> (r: String)
    ensures
        r@ == with_thousand_sep(v as nat),
{
    let mut out = String::new();
    push_with_thousand_sep(&mut out, v);
    assert(out@ =~= with_thousand_sep(v as nat));
    out
}

fn push_spaces(out: &mut String, n: usize)
    ensures
        final(out)@ == old(out)@ + spaces(n as nat),
{
    let mut i: usize = 0;
    while i < n
        invariant
            i <= n,
            out@ == old(out)@ + spaces(i as nat),
        decreases n - i,
    {
        out.append(" ");
        proof {
            reveal_strlit(" ");
        }
        i = i + 1;
        assert(out@ =~= old(out)@ + spaces(i as nat));
    }
}

fn push_padded_right(out: &mut String, s: &str, width: usize)
    ensures
        final(out)@ == old(out)@ + pad_right(s@, width as nat),
{
    let len = s.unicode_len();
    out.append(s);
    if len < width {
        push_spaces(out, width - len);
        assert(final(out)@ =~= old(out)@ + pad_right(s@, width as nat));
    }
}

fn push_padded_left(out: &mut String, s: &str, width: usize)
    ensures
        final(out)@ == old(out)@ + pad_left(s@, width as nat),
{
    let len = s.unicode_len();
    if len < width {
        push_spaces(out, width - len);
    }
    out.append(s);
    assert(final(out)@ =~= old(out)@ + pad_left(s@, width as nat));
}

/// The width of the name column: the length of the longest name, in
/// characters.
pub open spec fn name_column<D>(tests: Seq<Test<D>>) -> nat
    decreases tests.len(),
{
    if tests.len() == 0 {
        0
    } else {
        let rest = name_column(tests.drop_last());
        let w = tests.last().name@.len();
        if w > rest {
            w
        } else {
            rest
        }
    }
}

/// The room that a kind takes before a name: nothing for no kind, else the
/// kind in brackets and a space.
pub open spec fn kind_room(kind_len: nat) -> nat {
    if kind_len == 0 {
        0
    } else if kind_len + 3 > usize::MAX {
        usize::MAX as nat
    } else {
        kind_len + 3
    }
}

/// The width of the kind column: the room of the longest kind.
pub open spec fn kind_column<D>(tests: Seq<Test<D>>) -> nat
    decreases tests.len(),
{
    if tests.len() == 0 {
        0
    } else {
        let rest = kind_column(tests.drop_last());
        let w = kind_room(tests.last().kind@.len());
        if w > rest {
            w
        } else {
            rest
        }
    }
}

/// The widths of the name and kind columns of `tests`, so that the lines of
/// a report line up.
pub fn column_widths<D>(tests: &Vec<Test<D>>) -> (r: (usize, usize))
    ensures
        r.0 == name_column(tests@),
        r.1 == kind_column(tests@),
{
    let mut name_width: usize = 0;
    let mut kind_width: usize = 0;
    let mut i: usize = 0;
    while i < tests.len()
        invariant
            i <= tests@.len(),
            name_width == name_column(tests@.take(i as int)),
            kind_width == kind_column(tests@.take(i as int)),
        decreases tests.len() - i,
    {
        proof {
            assert(tests@.take(i + 1).drop_last() =~= tests@.take(i as int));
        }
        let t = &tests[i];
        let w = t.name.as_str().unicode_len();
        if w > name_width {
            name_width = w;
        }
        let k = t.kind.as_str().unicode_len();
        let room = if k == 0 {
            0
        } else if k > usize::MAX - 3 {
            usize::MAX
        } else {
            k + 3
        };
        if room > kind_width {
            kind_width = room;
        }
        i = i + 1;
    }
    proof {
        assert(tests@.take(i as int) =~= tests@);
    }
    (name_width, kind_width)
}

/// The kind of a test as it precedes the name: nothing for no kind, else the
/// kind in brackets and a space.
pub open spec fn kind_prefix(kind: Seq<char>) -> Seq<char> {
    if kind.len() == 0 {
        Seq::empty()
    } else {
        "["@ + kind + "] "@
    }
}

/// The line that lists a test: its kind, its name and whether it is a test
/// or a benchmark.
pub open spec fn list_line_of<D>(t: Test<D>) -> Seq<char> {
    kind_prefix(t.kind@) + t.name@ + ": "@ + if t.is_bench {
        "bench"@
    } else {
        "test"@
    }
}

fn push_kind_prefix(out: &mut String, kind: &String)
    ensures
        final(out)@ == old(out)@ + kind_prefix(kind@),
{
    if kind.as_str().unicode_len() > 0 {
        out.append("[");
        out.append(kind.as_str());
        out.append("] ");
        assert(final(out)@ =~= old(out)@ + kind_prefix(kind@));
    } else {
        assert(final(out)@ =~= old(out)@ + kind_prefix(kind@));
    }
}

/// The line that lists `test` (e.g. `[kind] name: test`).
pub fn list_line<D>(test: &Test<D>) -> (r: String)
    ensures
        r@ == list_line_of(*test),
{
    let mut out = String::new();
    push_kind_prefix(&mut out, &test.kind);
    out.append(test.name.as_str());
    out.append(": ");
    if test.is_bench {
        out.append("bench");
    } else {
        out.append("test");
    }
    assert(out@ =~= list_line_of(*test));
    out
}

/// The text that announces a test, with its kind and name padded to the
/// column widths (e.g. `test [kind] name ... `).
pub open spec fn announcement_of(
    name: Seq<char>,
    kind: Seq<char>,
    name_width: nat,
    kind_width: nat,
) -> Seq<char> {
    "test "@ + pad_right(kind_prefix(kind), kind_width) + pad_right(name, name_width) + " ... "@
}

/// The text that announces the test `name` of kind `kind`.
pub fn announcement(name: &String, kind: &String, name_width: usize, kind_width: usize) -> (r:
    String)
    ensures
        r@ == announcement_of(name@, kind@, name_width as nat, kind_width as nat),
{
    let mut prefix = String::new();
    push_kind_prefix(&mut prefix, kind);
    let mut out = String::new();
    out.append("test ");
    push_padded_right(&mut out, prefix.as_str(), kind_width);
    push_padded_right(&mut out, name.as_str(), name_width);
    out.append(" ... ");
    assert(out@ =~= announcement_of(name@, kind@, name_width as nat, kind_width as nat));
    out
}

/// The word that reports an outcome.
pub open spec fn label_of(o: Outcome) -> Seq<char> {
    match o {
        Outcome::Passed => "ok"@,
        Outcome::Failed { .. } => "FAILED"@,
        Outcome::Ignored => "ignored"@,
        Outcome::Measured { .. } => "bench"@,
    }
}

/// The word that reports `outcome`: `ok`, `FAILED`, `ignored` or `bench`.
pub fn outcome_label(outcome: &Outcome) -> (r: &'static str)
    ensures
        r@ == label_of(*outcome),
{
    match outcome {
        Outcome::Passed => "ok",
        Outcome::Failed { .. } => "FAILED",
        Outcome::Ignored => "ignored",
        Outcome::Measured { .. } => "bench",
    }
}

/// The character that reports an outcome in terse output; a measurement has
/// none, it is reported by a line of its own.
pub open spec fn terse_char_of(o: Outcome) -> Option<char> {
    match o {
        Outcome::Passed => Some('.'),
        Outcome::Failed { .. } => Some('F'),
        Outcome::Ignored => Some('i'),
        Outcome::Measured { .. } => None,
    }
}

/// The character that reports `outcome` in terse output.
pub fn terse_char(outcome: &Outcome) -> (r: Option<char>)
    ensures
        r == terse_char_of(*outcome),
{
    match outcome {
        Outcome::Passed => Some('.'),
        Outcome::Failed { .. } => Some('F'),
        Outcome::Ignored => Some('i'),
        Outcome::Measured { .. } => None,
    }
}

/// The details of a measurement after its label: the average right-aligned
/// in eleven characters and the variance, both with thousand separators.
pub open spec fn measurement_of(avg: nat, variance: nat) -> Seq<char> {
    ": "@ + pad_left(with_thousand_sep(avg), 11) + " ns/iter (+/- "@ + with_thousand_sep(variance)
        + ")"@
}

/// The details of a measurement (e.g. `:       1,024 ns/iter (+/- 3)`).
pub fn measurement_details(avg: u64, variance: u64) -> (r: String)
    ensures
        r@ == measurement_of(avg as nat, variance as nat),
{
    let a = fmt_with_thousand_sep(avg);
    let v = fmt_with_thousand_sep(variance);
    let mut out = String::new();
    out.append(": ");
    push_padded_left(&mut out, a.as_str(), 11);
    out.append(" ns/iter (+/- ");
    out.append(v.as_str());
    out.append(")");
    assert(out@ =~= measurement_of(avg as nat, variance as nat));
    out
}

/// The first line of a run (e.g. `running 3 tests`).
pub open spec fn title_of(num_tests: nat) -> Seq<char> {
    "running "@ + decimal(num_tests) + " test"@ + if num_tests == 1 {
        Seq::empty()
    } else {
        "s"@
    }
}

/// The first line of a run of `num_tests` tests.
pub fn title_line(num_tests: u64) -> (r: String)
    ensures
        r@ == title_of(num_tests as nat),
{
    let mut out = String::new();
    out.append("running ");
    push_decimal(&mut out, num_tests);
    out.append(" test");
    if num_tests != 1 {
        out.append("s");
    }
    assert(out@ =~= title_of(num_tests as nat));
    out
}

/// The summary of a conclusion, after the overall label (e.g. `. 3 passed;
/// 0 failed; 1 ignored; 0 measured; 0 filtered out`).
pub open spec fn tallies_of(
    passed: nat,
    failed: nat,
    ignored: nat,
    measured: nat,
    filtered_out: nat,
) -> Seq<char> {
    ". "@ + decimal(passed) + " passed; "@ + decimal(failed) + " failed; "@ + decimal(ignored)
        + " ignored; "@ + decimal(measured) + " measured; "@ + decimal(filtered_out)
        + " filtered out"@
}

/// The summary of the tallies of `conclusion`.
pub fn tallies_line(conclusion: &Conclusion) -> (r: String)
    ensures
        r@ == tallies_of(
            conclusion@.num_passed,
            conclusion@.num_failed,
            conclusion@.num_ignored,
            conclusion@.num_measured,
            conclusion@.num_filtered_out,
        ),
{
    let mut out = String::new();
    out.append(". ");
    push_decimal(&mut out, conclusion.num_passed());
    out.append(" passed; ");
    push_decimal(&mut out, conclusion.num_failed());
    out.append(" failed; ");
    push_decimal(&mut out, conclusion.num_ignored());
    out.append(" ignored; ");
    push_decimal(&mut out, conclusion.num_benches());
    out.append(" measured; ");
    push_decimal(&mut out, conclusion.num_filtered_out());
    out.append(" filtered out");
    assert(out@ =~= tallies_of(
        conclusion@.num_passed,
        conclusion@.num_failed,
        conclusion@.num_ignored,
        conclusion@.num_measured,
        conclusion@.num_filtered_out,
    ));
    out
}

} // verus!
