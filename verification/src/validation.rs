//! The rules that a solution's swaps and amounts have to meet before anything
//! is encoded.

use vstd::prelude::*;
use crate::bytes::bytes_eq;
use crate::models::{Solution, Swap, SLIPPAGE_ONE, SPLIT_ONE};

verus! {

/// Sum of the splits of those among the first `n` swaps that take `token` in.
pub open spec fn split_sum(swaps: Seq<Swap>, token: Seq<u8>, n: nat) -> nat
    recommends
        n <= swaps.len(),
    decreases n,
{
    if n == 0 {
        0
    } else {
        let rest = split_sum(swaps, token, (n - 1) as nat);
        if swaps[n - 1].token_in@ == token {
            rest + swaps[n - 1].split as nat
        } else {
            rest
        }
    }
}

/// No later swap takes the same token in as swap `i`.
pub open spec fn last_for_token(swaps: Seq<Swap>, i: int) -> bool {
    forall|j: int| i < j < swaps.len() ==> (#[trigger] swaps[j]).token_in@ != swaps[i].token_in@
}

/// Swap `i` has a split below one, a zero split exactly when it is the last
/// swap of its input token, and the splits of that token sum to less than one.
pub open spec fn split_ok_at(swaps: Seq<Swap>, i: int) -> bool {
    &&& swaps[i].split < SPLIT_ONE
    &&& (swaps[i].split == 0 <==> last_for_token(swaps, i))
    &&& split_sum(swaps, swaps[i].token_in@, swaps.len()) < SPLIT_ONE
}

/// The splits form one well-formed distribution per input token: every swap
/// but the last of a token names its share, and the last takes the remainder.
pub open spec fn splits_valid(swaps: Seq<Swap>) -> bool {
    forall|i: int| 0 <= i < swaps.len() ==> split_ok_at(swaps, i)
}

/// Swap `i` draws on the given token or on what an earlier swap puts out.
pub open spec fn fed_at(swaps: Seq<Swap>, given_token: Seq<u8>, i: int) -> bool {
    swaps[i].token_in@ == given_token || exists|j: int|
        0 <= j < i && (#[trigger] swaps[j]).token_out@ == swaps[i].token_in@
}

/// Some swap among the first `n` puts `token` out.
pub open spec fn produced(swaps: Seq<Swap>, token: Seq<u8>, n: int) -> bool {
    exists|j: int| 0 <= j < n && (#[trigger] swaps[j]).token_out@ == token
}

/// Walked in their order, the swaps lead from the given token to the checked
/// token: each draws on the given token or on an earlier output, and one of
/// them puts the checked token out.
pub open spec fn path_connected(swaps: Seq<Swap>, given_token: Seq<u8>, checked_token: Seq<u8>) -> bool {
    &&& forall|i: int| 0 <= i < swaps.len() ==> fed_at(swaps, given_token, i)
    &&& produced(swaps, checked_token, swaps.len() as int)
}

/// `expected` less the tolerated slippage, rounded down; nothing where the
/// whole output may slip.
pub open spec fn after_slippage(expected: nat, slippage: nat) -> nat {
    if slippage >= SLIPPAGE_ONE {
        0
    } else {
        (expected * (SLIPPAGE_ONE - slippage) / (SLIPPAGE_ONE as int)) as nat
    }
}

/// The least output that a solution accepts: the checked amount where it is
/// given, else the expected amount less the slippage, rounded down.
pub open spec fn min_amount_out(
    checked: Option<u128>,
    expected: Option<u128>,
    slippage: Option<u32>,
) -> nat {
    match (checked, expected, slippage) {
        (Some(c), _, _) => c as nat,
        (None, Some(e), Some(s)) => after_slippage(e as nat, s as nat),
        (None, Some(e), None) => e as nat,
        (None, None, _) => 0,
    }
}

/// A solution that the router strategies accept: swaps are present, the
/// amount is positive, the slippage is at most one, the splits are well
/// formed and the swaps are connected.
pub open spec fn solution_valid(solution: &Solution) -> bool {
    &&& solution.swaps@.len() > 0
    &&& solution.given_amount > 0
    &&& (solution.slippage matches Some(s) ==> s <= SLIPPAGE_ONE)
    &&& splits_valid(solution.swaps@)
    &&& path_connected(solution.swaps@, solution.given_token@, solution.checked_token@)
}

proof fn lemma_split_sum_bound(swaps: Seq<Swap>, token: Seq<u8>, n: nat)
    requires
        n <= swaps.len(),
        forall|i: int| 0 <= i < swaps.len() ==> (#[trigger] swaps[i]).split < SPLIT_ONE,
    ensures
        split_sum(swaps, token, n) <= n * SPLIT_ONE,
    decreases n,
{
    if n > 0 {
        lemma_split_sum_bound(swaps, token, (n - 1) as nat);
        assert((n - 1) * SPLIT_ONE + SPLIT_ONE == n * SPLIT_ONE) by (nonlinear_arith);
    }
}

/// Whether every split is below one.
fn splits_in_range(swaps: &Vec<Swap>) -> (ok: bool)
    ensures
        ok == forall|i: int| 0 <= i < swaps@.len() ==> (#[trigger] swaps@[i]).split < SPLIT_ONE,
{
    let mut i: usize = 0;
    while i < swaps.len()
        invariant
            i <= swaps@.len(),
            forall|k: int| 0 <= k < i ==> (#[trigger] swaps@[k]).split < SPLIT_ONE,
        decreases swaps@.len() - i,
    {
        if swaps[i].split >= SPLIT_ONE {
            return false;
        }
        i += 1;
    }
    true
}

/// Whether a swap after `i` takes the same token in.
fn has_later_sibling(swaps: &Vec<Swap>, i: usize) -> (found: bool)
    requires
        i < swaps@.len(),
    ensures
        found == !last_for_token(swaps@, i as int),
{
    let count: usize = swaps.len();
    let mut j: usize = i + 1;
    while j < count
        invariant
            count == swaps@.len(),
            i < j <= swaps@.len(),
            forall|k: int| i < k < j ==> (#[trigger] swaps@[k]).token_in@ != swaps@[i as int].token_in@,
        decreases swaps@.len() - j,
    {
        if bytes_eq(&swaps[j].token_in, &swaps[i].token_in) {
            return true;
        }
        j += 1;
    }
    false
}

/// Whether the splits of the swaps that take `token` in sum to less than one.
fn token_splits_below_one(swaps: &Vec<Swap>, token: &Vec<u8>) -> (ok: bool)
    requires
        forall|i: int| 0 <= i < swaps@.len() ==> (#[trigger] swaps@[i]).split < SPLIT_ONE,
    ensures
        ok == (split_sum(swaps@, token@, swaps@.len()) < SPLIT_ONE),
{
    let mut sum: u128 = 0;
    let mut j: usize = 0;
    while j < swaps.len()
        invariant
            j <= swaps@.len(),
            forall|i: int| 0 <= i < swaps@.len() ==> (#[trigger] swaps@[i]).split < SPLIT_ONE,
            sum == split_sum(swaps@, token@, j as nat),
            sum <= j * SPLIT_ONE,
        decreases swaps@.len() - j,
    {
        proof {
            lemma_split_sum_bound(swaps@, token@, (j + 1) as nat);
            assert((j + 1) * SPLIT_ONE <= 0x1_0000_0000_0000_0000 * 0x00ff_ffff) by (nonlinear_arith)
                requires
                    j + 1 <= 0x1_0000_0000_0000_0000,
                    SPLIT_ONE == 0x00ff_ffff,
            ;
        }
        if bytes_eq(&swaps[j].token_in, token) {
            sum = sum + swaps[j].split as u128;
        }
        j += 1;
    }
    sum < SPLIT_ONE as u128
}

/// Checks that the splits form one well-formed distribution per input token.
pub fn validate_split_percentages(swaps: &Vec<Swap>) -> (ok: bool)
    ensures
        ok == splits_valid(swaps@),
{
    if !splits_in_range(swaps) {
        proof {
            let w = choose|i: int| 0 <= i < swaps@.len() && !((#[trigger] swaps@[i]).split < SPLIT_ONE);
            assert(!split_ok_at(swaps@, w));
        }
        return false;
    }
    let mut i: usize = 0;
    while i < swaps.len()
        invariant
            i <= swaps@.len(),
            forall|k: int| 0 <= k < swaps@.len() ==> (#[trigger] swaps@[k]).split < SPLIT_ONE,
            forall|k: int| 0 <= k < i ==> split_ok_at(swaps@, k),
        decreases swaps@.len() - i,
    {
        let later = has_later_sibling(swaps, i);
        if (swaps[i].split == 0) == later {
            assert(!split_ok_at(swaps@, i as int));
            return false;
        }
        if !token_splits_below_one(swaps, &swaps[i].token_in) {
            assert(!split_ok_at(swaps@, i as int));
            return false;
        }
        i += 1;
    }
    true
}

/// Checks that the swaps, walked in their order, lead from the given token to
/// the checked token.
pub fn validate_swap_path(swaps: &Vec<Swap>, given_token: &Vec<u8>, checked_token: &Vec<u8>) -> (ok: bool)
    ensures
        ok == path_connected(swaps@, given_token@, checked_token@),
{
    let mut reached: bool = false;
    let mut i: usize = 0;
    while i < swaps.len()
        invariant
            i <= swaps@.len(),
            forall|k: int| 0 <= k < i ==> fed_at(swaps@, given_token@, k),
            reached == produced(swaps@, checked_token@, i as int),
        decreases swaps@.len() - i,
    {
        let mut fed: bool = bytes_eq(&swaps[i].token_in, given_token);
        let mut j: usize = 0;
        while j < i
            invariant
                j <= i < swaps@.len(),
                fed == (swaps@[i as int].token_in@ == given_token@ || exists|k: int|
                    0 <= k < j && (#[trigger] swaps@[k]).token_out@ == swaps@[i as int].token_in@),
            decreases i - j,
        {
            if bytes_eq(&swaps[j].token_out, &swaps[i].token_in) {
                fed = true;
            }
            j += 1;
        }
        if !fed {
            assert(!fed_at(swaps@, given_token@, i as int));
            return false;
        }
        if bytes_eq(&swaps[i].token_out, checked_token) {
            reached = true;
        }
        i += 1;
    }
    reached
}

/// Computes the least output that the solution accepts.
pub fn get_min_amount_for_solution(solution: &Solution) -> (amount: u128)
    ensures
        amount == min_amount_out(solution.checked_amount, solution.expected_amount, solution.slippage),
{
    match (solution.checked_amount, solution.expected_amount, solution.slippage) {
        (Some(c), _, _) => c,
        (None, Some(_), Some(s)) if s >= SLIPPAGE_ONE => 0,
        (None, Some(e), Some(s)) => {
            let keep: u128 = (SLIPPAGE_ONE - s) as u128;
            let one: u128 = SLIPPAGE_ONE as u128;
            let whole: u128 = e / one;
            let part: u128 = e % one;
            proof {
                lemma_scaled_floor(e as int, keep as int, one as int);
                assert(whole * keep <= e) by (nonlinear_arith)
                    requires
                        whole * one <= e,
                        keep <= one,
                        whole >= 0,
                ;
                assert(part * keep <= 10_000 * 10_000) by (nonlinear_arith)
                    requires
                        0 <= part < 10_000,
                        0 <= keep <= 10_000,
                ;
                assert(e * keep <= e * one) by (nonlinear_arith)
                    requires
                        0 <= keep <= one,
                        0 <= e,
                ;
                vstd::arithmetic::div_mod::lemma_div_is_ordered(e * keep, e * one, one as int);
                vstd::arithmetic::div_mod::lemma_div_multiples_vanish(e as int, one as int);
            }
            whole * keep + (part * keep) / one
        },
        (None, Some(e), None) => e,
        (None, None, _) => 0,
    }
}

/// Scaling by `k / d` and rounding down can be done on the quotient and the
/// remainder by `d` apart.
pub proof fn lemma_scaled_floor(e: int, k: int, d: int)
    requires
        e >= 0,
        k >= 0,
        d > 0,
    ensures
        (e * k) / d == (e / d) * k + ((e % d) * k) / d,
{
    let q = e / d;
    let r = e % d;
    assert(e == q * d + r) by (nonlinear_arith)
        requires
            q == e / d,
            r == e % d,
            d > 0,
    ;
    assert(e * k == (q * k) * d + r * k) by (nonlinear_arith)
        requires
            e == q * d + r,
    ;
    let a = (r * k) / d;
    let b = (r * k) % d;
    assert(r * k == a * d + b && 0 <= b < d) by (nonlinear_arith)
        requires
            a == (r * k) / d,
            b == (r * k) % d,
            d > 0,
    ;
    assert(e * k == (q * k + a) * d + b) by (nonlinear_arith)
        requires
            e * k == (q * k) * d + r * k,
            r * k == a * d + b,
    ;
    vstd::arithmetic::div_mod::lemma_fundamental_div_mod_converse(e * k, d, q * k + a, b);
}

/// In a well-formed distribution the last swap of the list takes all that
/// remains: a last swap that names a share makes the distribution malformed.
pub proof fn lemma_final_split_is_zero(swaps: Seq<Swap>)
    requires
        swaps.len() > 0,
        splits_valid(swaps),
    ensures
        swaps[swaps.len() - 1].split == 0,
{
    assert(split_ok_at(swaps, swaps.len() - 1));
}

/// Two swaps that share their input token, the first with a share below one
/// and the second with none, form a well-formed distribution.
pub proof fn lemma_share_then_rest_is_valid(swaps: Seq<Swap>)
    requires
        swaps.len() == 2,
        swaps[0].token_in@ == swaps[1].token_in@,
        0 < swaps[0].split < SPLIT_ONE,
        swaps[1].split == 0,
    ensures
        splits_valid(swaps),
{
    reveal_with_fuel(split_sum, 3);
    assert(!last_for_token(swaps, 0)) by {
        assert(swaps[1].token_in@ == swaps[0].token_in@);
    }
    assert(split_ok_at(swaps, 0));
    assert(split_ok_at(swaps, 1));
}

/// The least output is never above the expected amount: rounding goes down.
pub proof fn lemma_after_slippage_rounds_down(expected: nat, slippage: nat)
    requires
        slippage < SLIPPAGE_ONE,
    ensures
        after_slippage(expected, slippage) <= expected,
        after_slippage(expected, slippage) * SLIPPAGE_ONE <= expected * (SLIPPAGE_ONE - slippage),
{
    let keep = (SLIPPAGE_ONE - slippage) as int;
    let one = SLIPPAGE_ONE as int;
    assert(expected * keep <= expected * one) by (nonlinear_arith)
        requires
            0 <= keep <= one,
            0 <= expected,
    ;
    vstd::arithmetic::div_mod::lemma_div_is_ordered(expected * keep, expected * one, one);
    vstd::arithmetic::div_mod::lemma_div_multiples_vanish(expected as int, one);
    vstd::arithmetic::div_mod::lemma_fundamental_div_mod(expected * keep, one);
    assert(one * ((expected * keep) / one) == ((expected * keep) / one) * one) by (nonlinear_arith);
    assert(expected * keep >= 0) by (nonlinear_arith)
        requires
            0 <= keep,
            0 <= expected,
    ;
    vstd::arithmetic::div_mod::lemma_mod_bound(expected * keep, one);
}

} // verus!
