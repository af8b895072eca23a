//! Selection of the tests that take part in a run: the filter string and
//! the skip patterns, matched exactly or as substrings of the name.
use vstd::prelude::*;

use crate::args::Arguments;
use crate::model::Test;
use crate::text::{chars_of, contains_chars, occurs_in};

verus! {

/// `name` is hit by `pattern`: equal to it in exact mode, containing it
/// otherwise.
pub open spec fn pattern_hits(exact: bool, pattern: Seq<char>, name: Seq<char>) -> bool {
    if exact {
        name == pattern
    } else {
        occurs_in(pattern, name)
    }
}

/// A test called `name` survives the filter string and all skip patterns of
/// `args`.
pub open spec fn passes_filter(args: Arguments, name: Seq<char>) -> bool {
    &&& (args.filter_string matches Some(f) ==> pattern_hits(args.exact, f@, name))
    &&& forall|i: int|
        0 <= i < args.skip@.len() ==> !pattern_hits(args.exact, (#[trigger] args.skip@[i])@, name)
}

/// The test predicate of `passes_filter`.
pub open spec fn kept_by<D>(args: Arguments) -> spec_fn(Test<D>) -> bool {
    |t: Test<D>| passes_filter(args, t.name@)
}

/// The tests of `tests` that survive filtering, in their original order.
pub open spec fn survivors<D>(args: Arguments, tests: Seq<Test<D>>) -> Seq<Test<D>> {
    tests.filter(kept_by(args))
}

fn hits(exact: bool, pattern: &String, name: &String, name_chars: &Vec<char>) -> (r: bool)
    requires
        name_chars@ == name@,
    ensures
        r == pattern_hits(exact, pattern@, name@),
{
    if exact {
        *name == *pattern
    } else {
        contains_chars(name_chars, &chars_of(pattern.as_str()))
    }
}

/// Whether a test called `name` survives the filters of `args`.
pub fn is_filtered_in(args: &Arguments, name: &String) -> (r: bool)
    ensures
        r == passes_filter(*args, name@),
{
    let name_chars = chars_of(name.as_str());
    if let Some(f) = &args.filter_string {
        if !hits(args.exact, f, name, &name_chars) {
            return false;
        }
    }
    let mut i: usize = 0;
    while i < args.skip.len()
        invariant
            name_chars@ == name@,
            i <= args.skip@.len(),
            args.filter_string matches Some(f) ==> pattern_hits(args.exact, f@, name@),
            forall|k: int|
                0 <= k < i ==> !pattern_hits(args.exact, (#[trigger] args.skip@[k])@, name@),
        decreases args.skip.len() - i,
    {
        if hits(args.exact, &args.skip[i], name, &name_chars) {
            return false;
        }
        i = i + 1;
    }
    true
}

proof fn lemma_filter_step<A>(s: Seq<A>, i: int, pred: spec_fn(A) -> bool)
    requires
        0 <= i < s.len(),
    ensures
        s.take(i + 1).filter(pred) == if pred(s[i]) {
            s.take(i).filter(pred).push(s[i])
        } else {
            s.take(i).filter(pred)
        },
{
    assert(s.take(i + 1).drop_last() =~= s.take(i));
    reveal(Seq::filter);
}

proof fn lemma_filter_all<A>(s: Seq<A>, pred: spec_fn(A) -> bool)
    requires
        forall|i: int| 0 <= i < s.len() ==> pred(#[trigger] s[i]),
    ensures
        s.filter(pred) == s,
    decreases s.len(),
{
    reveal(Seq::filter);
    if s.len() > 0 {
        assert forall|i: int| 0 <= i < s.drop_last().len() implies pred(
            #[trigger] s.drop_last()[i],
        ) by {
            assert(s.drop_last()[i] == s[i]);
        }
        lemma_filter_all(s.drop_last(), pred);
        assert(s.drop_last().push(s.last()) =~= s);
    }
}

/// Keeps the tests that survive the filter string and the skip patterns of
/// `args`, in their order, and counts the tests that were filtered out.
pub fn filter_tests<D>(args: &Arguments, tests: Vec<Test<D>>) -> (r: (Vec<Test<D>>, u64))
    ensures
        r.0@ == survivors(*args, tests@),
        r.1 == tests@.len() - r.0@.len(),
{
    let ghost pred = kept_by::<D>(*args);
    if args.filter_string.is_none() && args.skip.len() == 0 {
        proof {
            lemma_filter_all(tests@, pred);
        }
        return (tests, 0);
    }
    let ghost all = tests@;
    let len_before = tests.len();
    let mut kept: Vec<Test<D>> = Vec::new();
    for t in it: tests.into_iter()
        invariant
            it.seq() == all,
            pred == kept_by::<D>(*args),
            kept@ == all.take(it.index() as int).filter(pred),
    {
        proof {
            lemma_filter_step(all, it.index() as int, pred);
        }
        assert(t == all[it.index() as int]);
        let keep = is_filtered_in(args, &t.name);
        assert(keep == pred(t));
        if keep {
            kept.push(t);
        }
    }
    proof {
        assert(all.take(all.len() as int) =~= all);
        all.lemma_filter_len(pred);
    }
    let num_filtered_out = (len_before - kept.len()) as u64;
    (kept, num_filtered_out)
}

/// Filtering is idempotent: the survivors of a filtering, filtered again
/// with the same arguments, are kept as they are, in the same order, and
/// none of them is counted as filtered out.
pub proof fn lemma_filter_idempotent<D>(args: Arguments, tests: Seq<Test<D>>)
    ensures
        survivors(args, survivors(args, tests)) == survivors(args, tests),
        survivors(args, tests).len() - survivors(args, survivors(args, tests)).len() == 0,
{
    let s = survivors(args, tests);
    assert forall|i: int| 0 <= i < s.len() implies (kept_by::<D>(args))(#[trigger] s[i]) by {
        tests.lemma_filter_pred(kept_by::<D>(args), i);
    }
    lemma_filter_all(s, kept_by::<D>(args));
}

} // verus!
