use vstd::prelude::*;

verus! {

/// Escape time of an orbit, given the outcomes of the magnitude tests
/// `|z_n| > 2` for `n = start, start + 1, ...`: the first `n` in
/// `[start, max_iters]` whose test holds, or `max_iters` when none does
/// (or when the recorded outcomes run out).
pub open spec fn escape_time_from(tests: Seq<bool>, start: nat, max_iters: nat) -> nat
    decreases max_iters + 1 - start,
{
    if start > max_iters || start >= tests.len() {
        max_iters
    } else if tests[start as int] {
        start
    } else {
        escape_time_from(tests, start + 1, max_iters)
    }
}

/// Escape time of an orbit whose magnitude tests, from `z_0` on, came out as `tests`.
pub open spec fn escape_time(tests: Seq<bool>, max_iters: nat) -> nat {
    escape_time_from(tests, 0, max_iters)
}

/// Every escape time lies in `[0, max_iters]`.
pub proof fn lemma_escape_time_bounded(tests: Seq<bool>, start: nat, max_iters: nat)
    ensures
        escape_time_from(tests, start, max_iters) <= max_iters,
    decreases max_iters + 1 - start,
{
    if start <= max_iters && start < tests.len() && !tests[start as int] {
        lemma_escape_time_bounded(tests, start + 1, max_iters);
    }
}

/// Tests that did not escape before step `n` do not change the escape time.
proof fn lemma_escape_time_skip(tests: Seq<bool>, start: nat, n: nat, max_iters: nat)
    requires
        start <= n,
        n <= max_iters,
        n <= tests.len(),
        forall|i: int| start <= i < n ==> !tests[i],
    ensures
        escape_time_from(tests, start, max_iters) == escape_time_from(tests, n, max_iters),
    decreases n - start,
{
    if start < n {
        lemma_escape_time_skip(tests, start + 1, n, max_iters);
    }
}

/// Escape time of an orbit that passed its first `n` tests and whose test at step `n`
/// came out as `escaped`, when the decision at step `n` ends the orbit.
pub proof fn lemma_escape_time_at(tests: Seq<bool>, escaped: bool, max_iters: nat)
    requires
        tests.len() <= max_iters,
        forall|i: int| 0 <= i < tests.len() ==> !tests[i],
        escaped || tests.len() == max_iters,
    ensures
        escape_time(tests.push(escaped), max_iters) == tests.len(),
{
    let t = tests.push(escaped);
    assert(forall|i: int| 0 <= i < tests.len() ==> t[i] == tests[i]);
    lemma_escape_time_skip(t, 0, tests.len(), max_iters);
    assert(t[tests.len() as int] == escaped);
    if !escaped {
        assert(escape_time_from(t, tests.len() + 1, max_iters) == max_iters);
    }
}

/// The decision taken at step `n` of an orbit, after the magnitude test on `z_n`
/// came out as `escaped`: `Some(count)` ends the orbit with that escape count,
/// `None` asks for the next iterate `z_{n+1} = z_n^2 + c`.
pub fn escape_decision(n: usize, max_iters: usize, escaped: bool) -> (r: Option<usize>)
    requires
        n <= max_iters,
    ensures
        escaped ==> r == Some(n),
        !escaped && n == max_iters ==> r == Some(max_iters),
        !escaped && n < max_iters ==> r is None,
{
    if escaped {
        Some(n)
    } else if n == max_iters {
        Some(max_iters)
    } else {
        None
    }
}

} // verus!
