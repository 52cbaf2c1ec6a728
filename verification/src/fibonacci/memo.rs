//! Fibonacci numbers computed with a table of the values already known.

use vstd::prelude::*;
use std::collections::HashMap;
use crate::fibonacci::{fib, lemma_fib_fits, MAX_INDEX};

verus! {

broadcast use vstd::std_specs::hash::group_hash_axioms;

/// Whether every entry of the table holds the Fibonacci number of its key.
pub open spec fn memo_sound(memo: Map<i64, i64>) -> bool {
    forall|k: i64| #[trigger] memo.contains_key(k) ==> memo[k] == fib(k as int)
}

/// Whether `after` holds every entry of `before`.
pub open spec fn memo_extends(before: Map<i64, i64>, after: Map<i64, i64>) -> bool {
    forall|k: i64| #[trigger]
        before.contains_key(k) ==> after.contains_key(k) && after[k] == before[k]
}

/// Distance of an index from zero.
pub open spec fn index_size(n: int) -> int {
    if n >= 0 {
        n
    } else {
        -n
    }
}

/// The Fibonacci number at index `n`, looked up in `memo` if it is there,
/// else computed from its neighbours and entered.
pub fn fibonacci(n: i64, memo: &mut HashMap<i64, i64>) -> (value: i64)
    requires
        -MAX_INDEX <= n <= MAX_INDEX,
        memo_sound(old(memo)@),
    ensures
        value == fib(n as int),
        memo_sound(final(memo)@),
        memo_extends(old(memo)@, final(memo)@),
        final(memo)@.contains_key(n),
    decreases index_size(n as int),
{
    if let Some(known) = memo.get(&n) {
        return *known;
    }
    proof {
        lemma_fib_fits(n as int);
    }
    let result: i64 = if n == 0 {
        0
    } else if n == 1 || n == -1 {
        1
    } else if n > 1 {
        let near: i64 = fibonacci(n - 1, memo);
        let far: i64 = fibonacci(n - 2, memo);
        near + far
    } else {
        let far: i64 = fibonacci(n + 2, memo);
        let near: i64 = fibonacci(n + 1, memo);
        far - near
    };
    memo.insert(n, result);
    result
}

} // verus!
