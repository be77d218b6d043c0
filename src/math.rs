use vstd::prelude::*;

verus! {

/// `r` is the integer square root of `n`: the largest `r` with `r * r <= n`.
pub open spec fn is_floor_sqrt(n: int, r: int) -> bool {
    0 <= r && r * r <= n && n < (r + 1) * (r + 1)
}

/// `floor(sqrt(n))`.
pub open spec fn floor_sqrt(n: nat) -> nat {
    choose|r: nat| is_floor_sqrt(n as int, r as int)
}

/// At most one integer is the integer square root of `n`.
pub proof fn lemma_floor_sqrt_unique(n: int, r: int, s: int)
    requires
        is_floor_sqrt(n, r),
        is_floor_sqrt(n, s),
    ensures
        r == s,
{
    if r < s {
        assert((r + 1) * (r + 1) <= s * s) by (nonlinear_arith)
            requires
                0 <= r + 1 <= s,
        ;
    } else if s < r {
        assert((s + 1) * (s + 1) <= r * r) by (nonlinear_arith)
            requires
                0 <= s + 1 <= r,
        ;
    }
}

/// Any witness of the property is the value of `floor_sqrt`.
pub proof fn lemma_floor_sqrt_is(n: nat, r: nat)
    requires
        is_floor_sqrt(n as int, r as int),
    ensures
        floor_sqrt(n) == r,
{
    let s = floor_sqrt(n);
    assert(is_floor_sqrt(n as int, s as int));
    lemma_floor_sqrt_unique(n as int, r as int, s as int);
}

/// One Newton step `(x + n / x) / 2` never falls below the integer square root.
proof fn lemma_newton_step_above(n: int, x: int)
    requires
        n >= 0,
        x >= 1,
    ensures
        n < ((x + n / x) / 2 + 1) * ((x + n / x) / 2 + 1),
{
    let q = n / x;
    let y = (x + q) / 2;
    assert(n < x * (q + 1)) by (nonlinear_arith)
        requires
            x >= 1,
            q == n / x,
    ;
    assert(2 * (y + 1) >= x + q + 1);
    assert(4 * x * (q + 1) <= (x + q + 1) * (x + q + 1)) by (nonlinear_arith);
    assert(4 * (y + 1) * (y + 1) >= (x + q + 1) * (x + q + 1)) by (nonlinear_arith)
        requires
            2 * (y + 1) >= x + q + 1,
            x + q + 1 >= 0,
    ;
    assert(n < (y + 1) * (y + 1)) by (nonlinear_arith)
        requires
            4 * (y + 1) * (y + 1) >= (x + q + 1) * (x + q + 1),
            4 * x * (q + 1) <= (x + q + 1) * (x + q + 1),
            n < x * (q + 1),
    ;
}

/// Once `x` is above the integer square root, a Newton step strictly decreases it.
proof fn lemma_newton_step_descends(n: int, x: int)
    requires
        n >= 0,
        x >= 1,
        x * x > n,
    ensures
        (x + n / x) / 2 < x,
{
    let q = n / x;
    assert(q * x <= n) by (nonlinear_arith)
        requires
            x >= 1,
            q == n / x,
    ;
    assert(q < x) by (nonlinear_arith)
        requires
            q * x <= n,
            n < x * x,
            x >= 1,
    ;
}

/// `floor(a * b / c)` stays at or below `b` when `a <= c`.
pub proof fn lemma_mul_div_le(a: int, b: int, c: int)
    requires
        0 <= a <= c,
        0 < c,
        0 <= b,
    ensures
        0 <= a * b / c <= b,
{
    assert(a * b <= c * b) by (nonlinear_arith)
        requires
            0 <= a <= c,
            0 <= b,
    ;
    assert(0 <= a * b) by (nonlinear_arith)
        requires
            0 <= a,
            0 <= b,
    ;
    assert(a * b / c <= b) by (nonlinear_arith)
        requires
            a * b <= c * b,
            0 < c,
    ;
    assert(0 <= a * b / c) by (nonlinear_arith)
        requires
            0 <= a * b,
            0 < c,
    ;
}

/// `floor(a * b / c)` falls strictly below `b` when `a < c` and `b > 0`.
pub proof fn lemma_mul_div_lt(a: int, b: int, c: int)
    requires
        0 <= a < c,
        0 < b,
    ensures
        a * b / c < b,
{
    assert(a * b < c * b) by (nonlinear_arith)
        requires
            0 <= a < c,
            0 < b,
    ;
    assert(a * b / c < b) by (nonlinear_arith)
        requires
            a * b < c * b,
            0 < c,
    ;
}

/// The product of two 64-bit values fits in 128 bits.
pub proof fn lemma_mul_u64_fits(a: u64, b: u64)
    ensures
        0 <= a * b <= u64::MAX * u64::MAX,
        u64::MAX * u64::MAX < u128::MAX,
{
    assert(0 <= a * b <= u64::MAX * u64::MAX) by (nonlinear_arith)
        requires
            0 <= a <= u64::MAX,
            0 <= b <= u64::MAX,
    ;
}

/// `floor(a * b / c)` with the product taken in 128 bits; `None` when `c` is zero.
pub fn mul_div_floor(a: u64, b: u64, c: u64) -> (r: Option<u128>)
    ensures
        c == 0 ==> r is None,
        c > 0 ==> r == Some(((a * b) / (c as int)) as u128),
        c > 0 ==> (a * b) / (c as int) <= u64::MAX * u64::MAX,
{
    if c == 0 {
        return None;
    }
    proof {
        lemma_mul_u64_fits(a, b);
        assert((a * b) / (c as int) <= a * b) by (nonlinear_arith)
            requires
                0 <= a * b,
                c >= 1,
        ;
    }
    let product: u128 = (a as u128) * (b as u128);
    Some(product / (c as u128))
}

/// Narrows a 128-bit value to 64 bits without loss; `None` when it does not fit.
pub fn narrow_u64(x: u128) -> (r: Option<u64>)
    ensures
        x <= u64::MAX ==> r == Some(x as u64),
        x > u64::MAX ==> r is None,
{
    if x <= u64::MAX as u128 {
        Some(x as u64)
    } else {
        None
    }
}

/// Integer square root by Newton's iteration: returns `floor(sqrt(n))`.
pub fn integer_sqrt(n: u128) -> (r: u128)
    ensures
        is_floor_sqrt(n as int, r as int),
        r == floor_sqrt(n as nat),
{
    if n < 2 {
        proof {
            assert(is_floor_sqrt(n as int, n as int)) by (nonlinear_arith)
                requires
                    0 <= n < 2,
            ;
            lemma_floor_sqrt_is(n as nat, n as nat);
        }
        return n;
    }
    let mut x: u128 = n;
    let mut y: u128 = n / 2 + n % 2;
    proof {
        assert(n / n == 1) by (nonlinear_arith)
            requires
                n >= 2,
        ;
        assert(y == (x + n / x) / 2);
        lemma_newton_step_above(n as int, x as int);
        assert(n < (x + 1) * (x + 1)) by (nonlinear_arith)
            requires
                x == n,
                n >= 2,
        ;
    }
    while y < x
        invariant
            n >= 2,
            1 <= y,
            1 <= x,
            y == (x + n / x) / 2,
            2 * y <= n + 1,
            n < (x + 1) * (x + 1),
            n < (y + 1) * (y + 1),
        decreases x,
    {
        x = y;
        proof {
            if y >= 2 {
                assert(n / y <= n / 2) by (nonlinear_arith)
                    requires
                        y >= 2,
                        n >= 0,
                ;
            } else {
                assert(n < 4) by (nonlinear_arith)
                    requires
                        y == 1,
                        n < (y + 1) * (y + 1),
                ;
            }
        }
        let q: u128 = n / y;
        y = (y + q) / 2;
        proof {
            lemma_newton_step_above(n as int, x as int);
            assert(q * x <= n) by (nonlinear_arith)
                requires
                    x >= 1,
                    q == n / x,
            ;
            assert(y >= 1) by (nonlinear_arith)
                requires
                    x >= 1,
                    n >= 2,
                    n < (x + 1) * (x + 1),
                    q == n / x,
                    y == (x + q) / 2,
            ;
        }
    }
    proof {
        if x * x > n {
            lemma_newton_step_descends(n as int, x as int);
        }
        assert(is_floor_sqrt(n as int, x as int));
        lemma_floor_sqrt_is(n as nat, x as nat);
    }
    x
}

} // verus!
