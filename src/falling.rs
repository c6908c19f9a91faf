use vstd::prelude::*;

verus! {

/// The falling factorial `a (a-1) ... (a-b+1)`: `b` factors counting down
/// from `a`, and 1 when `b` is 0.
pub open spec fn falling(a: int, b: nat) -> int
    decreases b,
{
    if b == 0 {
        1
    } else {
        falling(a, (b - 1) as nat) * (a - (b - 1))
    }
}

/// Past `a` factors the product has met the factor 0.
proof fn lemma_falling_vanishes(a: nat, b: nat)
    requires
        a < b,
    ensures
        falling(a as int, b) == 0,
    decreases b,
{
    let p = falling(a as int, (b - 1) as nat);
    let f = a - (b - 1);
    if b > a + 1 {
        lemma_falling_vanishes(a, (b - 1) as nat);
    }
    assert(p * f == 0) by (nonlinear_arith)
        requires
            p == 0 || f == 0,
    ;
}

/// Up to `a` factors every factor is at least 1, so the product never shrinks.
proof fn lemma_falling_grows(a: nat, i: nat, j: nat)
    requires
        i <= j <= a,
    ensures
        1 <= falling(a as int, i) <= falling(a as int, j),
    decreases j,
{
    if j > 0 {
        let p = falling(a as int, (j - 1) as nat);
        let f = a - (j - 1);
        if i < j {
            lemma_falling_grows(a, i, (j - 1) as nat);
        } else {
            lemma_falling_grows(a, (j - 1) as nat, (j - 1) as nat);
        }
        assert(p <= p * f) by (nonlinear_arith)
            requires
                1 <= p,
                1 <= f,
        ;
    }
}

/// The falling factorial of `a` over `b` factors, exactly, or `None` where it
/// does not fit in a `u128`.
pub fn generalized_factorial(a: u64, b: u64) -> (r: Option<u128>)
    ensures
        match r {
            Some(v) => v == falling(a as int, b as nat),
            None => falling(a as int, b as nat) > u128::MAX,
        },
{
    if b > a {
        proof {
            lemma_falling_vanishes(a as nat, b as nat);
        }
        return Some(0);
    }
    let mut result: u128 = 1;
    let mut i: u64 = 0;
    while i < b
        invariant
            i <= b <= a,
            result == falling(a as int, i as nat),
        decreases b - i,
    {
        match result.checked_mul((a - i) as u128) {
            Some(v) => {
                result = v;
            },
            None => {
                proof {
                    lemma_falling_grows(a as nat, (i + 1) as nat, b as nat);
                }
                return None;
            },
        }
        i = i + 1;
    }
    Some(result)
}

} // verus!
