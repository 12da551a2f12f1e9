//! Rounding an exact quotient of natural numbers to a whole number.
use vstd::prelude::*;

verus! {

/// `n / d` rounded to the nearest whole number, an exact half going to the
/// even neighbour.
pub open spec fn round_half_even(n: nat, d: nat) -> nat
    recommends
        d > 0,
{
    let q = n / d;
    let r = n % d;
    if 2 * r > d || (2 * r == d && q % 2 == 1) {
        q + 1
    } else {
        q
    }
}

/// `n / d` rounded to the nearest whole number, an exact half going down.
pub open spec fn round_half_down(n: nat, d: nat) -> nat
    recommends
        d > 0,
{
    let q = n / d;
    let r = n % d;
    if 2 * r > d {
        q + 1
    } else {
        q
    }
}

/// Both roundings are monotone in the dividend.
pub proof fn lemma_round_monotone(a: nat, b: nat, d: nat)
    requires
        d > 0,
        a <= b,
    ensures
        round_half_even(a, d) <= round_half_even(b, d),
        round_half_down(a, d) <= round_half_down(b, d),
{
    let qa = a / d;
    let qb = b / d;
    assert(qa <= qb) by (nonlinear_arith)
        requires
            d > 0,
            a <= b,
            qa == a / d,
            qb == b / d,
    ;
    if qa == qb {
        assert(a % d <= b % d) by (nonlinear_arith)
            requires
                d > 0,
                a <= b,
                a / d == b / d,
        ;
    }
}

/// `n / d` rounded half to even, computed without overflow.
pub fn round_half_even_exec(n: u64, d: u64) -> (r: u64)
    requires
        2 <= d <= 1_000_000_000_000_000_000,
    ensures
        r == round_half_even(n as nat, d as nat),
{
    let q = n / d;
    let rem = n % d;
    assert(q <= n / 2) by (nonlinear_arith)
        requires
            d >= 2,
            q == n / d,
    ;
    if 2 * rem > d || (2 * rem == d && q % 2 == 1) {
        q + 1
    } else {
        q
    }
}

/// `n / d` rounded half down, computed without overflow.
pub fn round_half_down_exec(n: u64, d: u64) -> (r: u64)
    requires
        2 <= d <= 1_000_000_000_000_000_000,
    ensures
        r == round_half_down(n as nat, d as nat),
{
    let q = n / d;
    let rem = n % d;
    assert(q <= n / 2) by (nonlinear_arith)
        requires
            d >= 2,
            q == n / d,
    ;
    if 2 * rem > d {
        q + 1
    } else {
        q
    }
}

} // verus!
