use vstd::prelude::*;

verus! {

/// `b` to the power `e`.
pub open spec fn pow(b: int, e: nat) -> int
    decreases e,
{
    if e == 0 { 1 } else { b * pow(b, (e - 1) as nat) }
}

/// Whether `r` is the `n`th root of `target` rounded down.
pub open spec fn is_floor_root(target: int, n: nat, r: int) -> bool {
    r >= 0 && pow(r, n) <= target < pow(r + 1, n)
}

/// Powers of natural numbers grow with the base.
pub proof fn lemma_pow_monotone(a: int, b: int, e: nat)
    requires
        0 <= a <= b,
    ensures
        0 <= pow(a, e) <= pow(b, e),
    decreases e,
{
    if e > 0 {
        lemma_pow_monotone(a, b, (e - 1) as nat);
        assert(a * pow(a, (e - 1) as nat) <= b * pow(b, (e - 1) as nat)) by (nonlinear_arith)
            requires
                0 <= a <= b,
                0 <= pow(a, (e - 1) as nat) <= pow(b, (e - 1) as nat),
        ;
    }
}

/// `v` to the power `n`, or `None` if that exceeds `u64::MAX`.
pub fn checked_pow(v: u64, n: u32) -> (r: Option<u64>)
    ensures
        match r {
            Some(p) => p == pow(v as int, n as nat),
            None => pow(v as int, n as nat) > u64::MAX,
        },
{
    let mut acc: u64 = 1;
    let mut i: u32 = 0;
    while i < n
        invariant
            i <= n,
            acc == pow(v as int, i as nat),
        decreases n - i,
    {
        match acc.checked_mul(v) {
            Some(x) => {
                assert(pow(v as int, (i + 1) as nat) == v * pow(v as int, i as nat));
                acc = x;
            },
            None => {
                proof {
                    assert(pow(v as int, (i + 1) as nat) == v * pow(v as int, i as nat));
                    assert(v >= 1) by {
                        if v == 0 {
                            assert(acc * v == 0) by (nonlinear_arith)
                                requires
                                    v == 0,
                            ;
                        }
                    }
                    lemma_pow_grows(v as int, (i + 1) as nat, n as nat);
                }
                return None;
            },
        }
        i = i + 1;
    }
    Some(acc)
}

/// Powers of a positive base do not shrink as the exponent grows.
pub proof fn lemma_pow_grows(v: int, a: nat, b: nat)
    requires
        a <= b,
        v >= 1,
    ensures
        pow(v, a) <= pow(v, b),
        pow(v, a) >= 1,
    decreases b,
{
    if a < b {
        lemma_pow_grows(v, a, (b - 1) as nat);
        assert(pow(v, (b - 1) as nat) <= v * pow(v, (b - 1) as nat)) by (nonlinear_arith)
            requires
                v >= 1,
                pow(v, (b - 1) as nat) >= 1,
        ;
    } else if a > 0 {
        lemma_pow_grows(v, (a - 1) as nat, (a - 1) as nat);
        assert(v * pow(v, (a - 1) as nat) >= 1) by (nonlinear_arith)
            requires
                v >= 1,
                pow(v, (a - 1) as nat) >= 1,
        ;
    }
}

/// The `nth_root`th root of `target`, rounded down, computed from an approximation
/// `guess` that is off by at most one: corner cases are answered directly, and the
/// guess is corrected by comparing powers. `None` for the zeroth root.
pub fn checked_nth_root_from_guess(target: u64, nth_root: u64, guess: u64) -> (r: Option<u64>)
    ensures
        nth_root == 0 ==> r is None,
        nth_root != 0 && (nth_root == 1 || target <= 1) ==> r == Some(target),
        nth_root > 1 && target > 1 && (nth_root >= target || nth_root > 64) ==> r == Some(1u64),
        nth_root > 1 && target > 1 && nth_root < target && nth_root <= 64 ==> r == Some(
            if pow(guess as int, nth_root as nat) > target {
                if guess == 0 { 0u64 } else { (guess - 1) as u64 }
            } else if pow(guess + 1, nth_root as nat) > target {
                guess
            } else {
                (guess + 1) as u64
            },
        ),
        nth_root > 1 && target > 1 && nth_root < target && nth_root <= 64 && guess >= 1
            && (exists|x: int| guess - 1 <= x <= guess + 1 && is_floor_root(target as int, nth_root as nat, x))
            ==> r is Some && is_floor_root(target as int, nth_root as nat, r->0 as int),
{
    if nth_root == 0 {
        return None;
    }
    if nth_root == 1 || target <= 1 {
        return Some(target);
    }
    if nth_root >= target || nth_root > 64 {
        return Some(1);
    }
    let n = nth_root as u32;
    assert(n as nat == nth_root as nat);
    let below = match checked_pow(guess, n) {
        Some(p) => target < p,
        None => true,
    };
    if below {
        proof {
            if guess >= 1 && exists|x: int| guess - 1 <= x <= guess + 1 && is_floor_root(target as int, n as nat, x) {
                let x = choose|x: int| guess - 1 <= x <= guess + 1 && is_floor_root(target as int, n as nat, x);
                if x >= guess {
                    lemma_pow_monotone(guess as int, x, n as nat);
                }
                assert(x == guess - 1);
            }
        }
        return Some(if guess == 0 { 0 } else { guess - 1 });
    }
    if guess == u64::MAX {
        proof {
            lemma_pow_grows(guess as int, 2, n as nat);
            assert(pow(guess as int, 2) == guess * pow(guess as int, 1));
            assert(pow(guess as int, 1) == guess * pow(guess as int, 0));
            assert(guess * guess > u64::MAX) by (nonlinear_arith)
                requires
                    guess == u64::MAX,
            ;
            assert(false);
        }
        return Some(guess);
    }
    let guess_plus_one = guess + 1;
    let below_next = match checked_pow(guess_plus_one, n) {
        Some(p) => target < p,
        None => true,
    };
    if below_next {
        proof {
            assert(pow(guess as int, n as nat) <= target);
            assert(target < pow(guess + 1, n as nat));
            assert(is_floor_root(target as int, n as nat, guess as int));
            if guess >= 1 && exists|x: int| guess - 1 <= x <= guess + 1 && is_floor_root(target as int, n as nat, x) {
                let x = choose|x: int| guess - 1 <= x <= guess + 1 && is_floor_root(target as int, n as nat, x);
                if x < guess {
                    lemma_pow_monotone(x + 1, guess as int, n as nat);
                }
                if x > guess {
                    lemma_pow_monotone(guess_plus_one as int, x, n as nat);
                }
            }
        }
        return Some(guess);
    }
    proof {
        if guess >= 1 && exists|x: int| guess - 1 <= x <= guess + 1 && is_floor_root(target as int, n as nat, x) {
            let x = choose|x: int| guess - 1 <= x <= guess + 1 && is_floor_root(target as int, n as nat, x);
            if x < guess {
                lemma_pow_monotone(x + 1, guess as int, n as nat);
            }
            if x == guess {
                assert(false);
            }
        }
    }
    Some(guess_plus_one)
}

} // verus!
