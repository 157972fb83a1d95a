//! When the benchmark turns the token flow around: tokens go from the source
//! account to the generated accounts, and after a while they are reclaimed.
use vstd::prelude::*;

verus! {

/// Tokens that each generated account is meant to hold.
pub const NUM_TOKENS_PER_ACCOUNT: i64 = 20;

/// Integer quotient rounded toward zero, as Rust's `/` on signed integers.
pub open spec fn quot(a: int, b: int) -> int {
    if (a >= 0) == (b > 0) {
        if a >= 0 { a / b } else { (-a) / (-b) }
    } else {
        if a >= 0 { -(a / (-b)) } else { -((-a) / b) }
    }
}

/// Remainder that goes with `quot`, as Rust's `%` on signed integers: its
/// sign is that of `a`, its magnitude that of `|a|` modulo `|b|` (the `%` of
/// specifications is Euclidean, so it depends on `|b|` alone).
pub open spec fn rem(a: int, b: int) -> int {
    if a >= 0 { a % b } else { -((-a) % b) }
}

/// The batch number `i` turns the token flow around when it is a multiple of a
/// quarter of `num_tokens_per_account` and has reached three quarters of it.
pub open spec fn switches_at(num_tokens_per_account: int, i: int) -> bool {
    rem(i, quot(num_tokens_per_account, 4)) == 0
        && i >= quot(3 * num_tokens_per_account, 4)
}

/// What `should_switch_directions` may be called with without a fault: a
/// non-zero divisor, no overflowing remainder, no overflowing `3 * n`.
pub open spec fn switch_defined(num_tokens_per_account: int, i: int) -> bool {
    &&& quot(num_tokens_per_account, 4) != 0
    &&& !(i == i64::MIN && quot(num_tokens_per_account, 4) == -1)
    &&& i64::MIN <= 3 * num_tokens_per_account <= i64::MAX
}

/// Whether the benchmark turns the token flow around after batch `i`.
pub fn should_switch_directions(num_tokens_per_account: i64, i: i64) -> (switch: bool)
    requires
        switch_defined(num_tokens_per_account as int, i as int),
    ensures
        switch == switches_at(num_tokens_per_account as int, i as int),
{
    let quarter = num_tokens_per_account / 4;
    assert(quarter as int == quot(num_tokens_per_account as int, 4));
    let three = 3 * num_tokens_per_account;
    let threshold = three / 4;
    assert(threshold as int == quot(three as int, 4));
    let r = i % quarter;
    assert(r as int == rem(i as int, quarter as int));
    r == 0 && i >= threshold
}

} // verus!

verus! {

/// The token-flow state of the benchmark's main loop: the batch counter and
/// whether tokens currently flow back to the source account.
pub struct TokenFlow {
    pub batch: i64,
    pub reclaim: bool,
}

impl TokenFlow {
    /// The flow before the first batch: the counter starts at the first
    /// generated account's balance, and tokens leave the source account.
    pub fn new(start: i64) -> (flow: TokenFlow)
        ensures
            flow.batch == start,
            !flow.reclaim,
    {
        TokenFlow { batch: start, reclaim: false }
    }

    /// Counts one more batch and turns the flow around when
    /// `should_switch_directions` says so for the new count.
    pub fn next_batch(&mut self)
        requires
            old(self).batch < i64::MAX,
        ensures
            final(self).batch == old(self).batch + 1,
            final(self).reclaim == (old(self).reclaim != switches_at(20, old(self).batch + 1)),
    {
        self.batch = self.batch + 1;
        if should_switch_directions(NUM_TOKENS_PER_ACCOUNT, self.batch) {
            self.reclaim = !self.reclaim;
        }
    }
}

/// Who pays and who is paid in one generated transfer: the source account pays
/// the generated account, or the other way round while tokens are reclaimed.
pub fn transfer_endpoints<T>(source: T, account: T, reclaim: bool) -> (ends: (T, T))
    ensures
        ends == (if reclaim { (account, source) } else { (source, account) }),
{
    if !reclaim {
        (source, account)
    } else {
        (account, source)
    }
}

/// Once the threshold of three quarters is reached, the turning points repeat
/// every quarter of `num_tokens_per_account` batches.
pub proof fn lemma_switch_periodic(num_tokens_per_account: int, i: int)
    requires
        quot(num_tokens_per_account, 4) > 0,
        i >= quot(3 * num_tokens_per_account, 4),
    ensures
        switches_at(num_tokens_per_account, i + quot(num_tokens_per_account, 4))
            == switches_at(num_tokens_per_account, i),
{
    let q = quot(num_tokens_per_account, 4);
    assert(i >= 0);
    vstd::arithmetic::div_mod::lemma_mod_add_multiples_vanish(i, q);
}

/// Two turning points lie at least a quarter of `num_tokens_per_account`
/// batches apart.
pub proof fn lemma_switch_spacing(num_tokens_per_account: int, i: int, j: int)
    requires
        quot(num_tokens_per_account, 4) > 0,
        switches_at(num_tokens_per_account, i),
        switches_at(num_tokens_per_account, j),
        i < j,
    ensures
        j - i >= quot(num_tokens_per_account, 4),
{
    let q = quot(num_tokens_per_account, 4);
    vstd::arithmetic::div_mod::lemma_fundamental_div_mod(i, q);
    vstd::arithmetic::div_mod::lemma_fundamental_div_mod(j, q);
    let a = i / q;
    let b = j / q;
    assert(j - i == q * (b - a)) by (nonlinear_arith)
        requires
            i == q * a,
            j == q * b,
    {
    }
    assert(b - a >= 1) by (nonlinear_arith)
        requires
            j - i == q * (b - a),
            i < j,
            q > 0,
    {
    }
    assert(q * (b - a) >= q) by (nonlinear_arith)
        requires
            b - a >= 1,
            q > 0,
    {
    }
}

/// For a positive number of tokens per account (at least four, so that a
/// quarter is not zero) and a batch counter that is not negative, the flow
/// turns exactly at the multiples of a quarter that are at least three
/// quarters of the tokens: `i` is a multiple of `n / 4` and `3 * n < 4 * (i + 1)`.
pub proof fn lemma_switch_characterized(n: int, i: int)
    requires
        n >= 4,
        i >= 0,
    ensures
        switches_at(n, i) <==> (i % (n / 4) == 0 && 3 * n < 4 * i + 4),
{
    assert(quot(n, 4) == n / 4);
    assert(n / 4 > 0);
    assert(quot(3 * n, 4) == (3 * n) / 4);
    assert(rem(i, n / 4) == i % (n / 4));
    assert((i >= (3 * n) / 4) <==> (3 * n < 4 * i + 4)) by (nonlinear_arith)
        requires
            n >= 4,
            i >= 0,
    {
    }
}

/// No turning point lies below three quarters of the tokens per account.
pub proof fn lemma_no_switch_below_three_quarters(n: int, i: int)
    requires
        n >= 4,
        switches_at(n, i),
    ensures
        4 * i + 4 > 3 * n,
        i >= 0,
{
    assert(quot(3 * n, 4) == (3 * n) / 4);
    assert(4 * i + 4 > 3 * n) by (nonlinear_arith)
        requires
            i >= (3 * n) / 4,
            n >= 4,
    {
    }
}

/// With the benchmark's twenty tokens per account, a batch counter that is
/// not negative turns the flow at 15, 20, 25, ... and nowhere else.
pub proof fn lemma_switch_points_for_twenty(i: int)
    requires
        i >= 0,
    ensures
        switches_at(NUM_TOKENS_PER_ACCOUNT as int, i) <==> (i >= 15 && i % 5 == 0),
        0 <= i < 15 ==> !switches_at(NUM_TOKENS_PER_ACCOUNT as int, i),
{
    lemma_switch_characterized(20, i);
}

} // verus!
