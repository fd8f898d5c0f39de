//! Checked `i128` arithmetic. Amounts, prices and ratios are all `i128`; an
//! operation that leaves that range, or divides by zero, ends a call with
//! [`Error::Arithmetic`].
use crate::error::Error;
use vstd::prelude::*;

verus! {

/// `x` is representable as an `i128`.
pub open spec fn fits(x: int) -> bool {
    i128::MIN <= x <= i128::MAX
}

/// The quotient of `a` by `b`, rounded towards zero.
pub open spec fn quot(a: int, b: int) -> int {
    if a >= 0 {
        if b > 0 {
            a / b
        } else {
            -(a / (-b))
        }
    } else {
        if b > 0 {
            -((-a) / b)
        } else {
            (-a) / (-b)
        }
    }
}

/// Dividing `a` by `b` gives an `i128`.
pub open spec fn divisible(a: int, b: int) -> bool {
    b != 0 && fits(quot(a, b))
}

/// The smaller of two integers.
pub open spec fn min(a: int, b: int) -> int {
    if a <= b {
        a
    } else {
        b
    }
}

/// The larger of two integers.
pub open spec fn max(a: int, b: int) -> int {
    if a >= b {
        a
    } else {
        b
    }
}

/// `x` moved to the nearest representable value.
pub open spec fn saturate(x: int) -> int {
    if x > i128::MAX {
        i128::MAX as int
    } else if x < i128::MIN {
        i128::MIN as int
    } else {
        x
    }
}

/// `q` is `n` over `d`, rounded down.
pub open spec fn rounded_down(q: int, n: int, d: int) -> bool {
    q * d <= n < (q + 1) * d
}

/// A number over another, rounded down, is their quotient.
pub proof fn lemma_rounded_down(q: int, n: int, d: int)
    requires
        n >= 0,
        d > 0,
    ensures
        rounded_down(q, n, d) <==> q == quot(n, d),
        rounded_down(quot(n, d), n, d),
        0 <= quot(n, d) <= n,
{
    lemma_quot_range(n, d);
    let r = quot(n, d);
    if rounded_down(q, n, d) {
        assert(q == r) by (nonlinear_arith)
            requires
                q * d <= n < (q + 1) * d,
                r * d <= n < (r + 1) * d,
                d > 0,
        ;
    }
}

/// `q` is `n` over `d`, rounded towards zero.
pub open spec fn rounded_to_zero(q: int, n: int, d: int) -> bool {
    &&& n >= 0 && d > 0 ==> rounded_down(q, n, d)
    &&& n >= 0 && d < 0 ==> rounded_down(-q, n, -d)
    &&& n < 0 && d > 0 ==> rounded_down(-q, -n, d)
    &&& n < 0 && d < 0 ==> rounded_down(q, -n, -d)
}

/// A number over another, rounded towards zero, is their quotient.
pub proof fn lemma_rounded_to_zero(q: int, n: int, d: int)
    requires
        d != 0,
    ensures
        rounded_to_zero(q, n, d) <==> q == quot(n, d),
        rounded_to_zero(quot(n, d), n, d),
        size(quot(n, d)) <= size(n),
{
    if n >= 0 {
        if d > 0 {
            lemma_rounded_down(q, n, d);
        } else {
            lemma_rounded_down(-q, n, -d);
        }
    } else {
        if d > 0 {
            lemma_rounded_down(-q, -n, d);
        } else {
            lemma_rounded_down(q, -n, -d);
        }
    }
}

/// The quotient of two numbers, the divisor positive, lies between zero and
/// the dividend.
pub proof fn lemma_quot_range(a: int, b: int)
    requires
        b > 0,
    ensures
        a >= 0 ==> 0 <= quot(a, b) <= a,
        a <= 0 ==> a <= quot(a, b) <= 0,
        a >= 0 ==> quot(a, b) * b <= a < (quot(a, b) + 1) * b,
{
    if a >= 0 {
        assert(0 <= a / b <= a && (a / b) * b <= a < (a / b + 1) * b) by (nonlinear_arith)
            requires
                a >= 0,
                b > 0,
        ;
    } else {
        let c = -a;
        assert(0 <= c / b <= c) by (nonlinear_arith)
            requires
                c >= 0,
                b > 0,
        ;
    }
}

/// `a + b`.
pub fn plus(a: i128, b: i128) -> (r: Result<i128, Error>)
    ensures
        fits(a + b) ==> r == Ok::<i128, Error>((a + b) as i128),
        !fits(a + b) ==> r == Err::<i128, Error>(Error::Arithmetic),
{
    match a.checked_add(b) {
        Some(x) => Ok(x),
        None => Err(Error::Arithmetic),
    }
}

/// `a - b`.
pub fn minus(a: i128, b: i128) -> (r: Result<i128, Error>)
    ensures
        fits(a - b) ==> r == Ok::<i128, Error>((a - b) as i128),
        !fits(a - b) ==> r == Err::<i128, Error>(Error::Arithmetic),
{
    match a.checked_sub(b) {
        Some(x) => Ok(x),
        None => Err(Error::Arithmetic),
    }
}

/// `a * b`.
pub fn times(a: i128, b: i128) -> (r: Result<i128, Error>)
    ensures
        fits(a * b) ==> r == Ok::<i128, Error>((a * b) as i128),
        !fits(a * b) ==> r == Err::<i128, Error>(Error::Arithmetic),
{
    match a.checked_mul(b) {
        Some(x) => Ok(x),
        None => Err(Error::Arithmetic),
    }
}

/// `a / b`, rounded towards zero.
pub fn over(a: i128, b: i128) -> (r: Result<i128, Error>)
    ensures
        divisible(a as int, b as int) ==> r == Ok::<i128, Error>(quot(a as int, b as int) as i128),
        !divisible(a as int, b as int) ==> r == Err::<i128, Error>(Error::Arithmetic),
{
    match a.checked_div(b) {
        Some(x) => Ok(x),
        None => Err(Error::Arithmetic),
    }
}

/// `a * b / c`, rounded towards zero.
pub fn times_over(a: i128, b: i128, c: i128) -> (r: Result<i128, Error>)
    ensures
        ratio_defined(a as int, b as int, c as int) ==> r == Ok::<i128, Error>(
            quot(a * b, c as int) as i128,
        ),
        !ratio_defined(a as int, b as int, c as int) ==> r == Err::<i128, Error>(Error::Arithmetic),
{
    let p: i128 = times(a, b)?;
    over(p, c)
}

/// `a * b / c` can be computed: the product and the quotient are both
/// representable.
pub open spec fn ratio_defined(a: int, b: int, c: int) -> bool {
    fits(a * b) && divisible(a * b, c)
}

/// What a number measures, whatever its sign.
pub open spec fn size(x: int) -> int {
    if x >= 0 {
        x
    } else {
        -x
    }
}

/// What a number measures, whatever its sign.
fn size_of(x: i128) -> (r: u128)
    ensures
        r == size(x as int),
{
    if x >= 0 {
        x as u128
    } else {
        (-(x + 1)) as u128 + 1
    }
}

/// The quotient of `a * b` by `c` and what is left over, or nothing where the
/// quotient is too large. The product itself may be as large as it likes.
fn long_ratio(a: u128, b: u128, c: u128) -> (r: Option<(u128, u128)>)
    requires
        0 < c <= 0x8000_0000_0000_0000_0000_0000_0000_0000,
    ensures
        match r {
            Some((q, rest)) => a * b == q * c + rest && rest < c,
            None => exists|q: int, rest: int| #[trigger]
                parts(a * b, c as int, q, rest) && q > u128::MAX,
        },
    decreases a,
{
    if a == 0 {
        proof {
            assert(0 * b == 0 && 0 * c == 0) by (nonlinear_arith);
        }
        return Some((0, 0));
    }
    let half: u128 = a / 2;
    let odd: bool = a % 2 == 1;
    match long_ratio(half, b, c) {
        None => {
            proof {
                let (q, rest) = choose|q: int, rest: int| #[trigger]
                    parts(half * b, c as int, q, rest) && q > u128::MAX;
                lemma_next_parts(a as int, b as int, c as int, q, rest);
            }
            None
        },
        Some((q, rest)) => {
            proof {
                lemma_next_parts(a as int, b as int, c as int, q as int, rest as int);
            }
            let ghost next = next_parts(a as int, b as int, c as int, q as int, rest as int);
            let mut left: u128 = rest + rest;
            let mut carry: u128 = 0;
            if left >= c {
                left = left - c;
                carry = 1;
            }
            if odd {
                let more: u128 = b % c;
                if left >= c - more {
                    left = left - (c - more);
                    carry = carry + 1;
                } else {
                    left = left + more;
                }
            }
            let added: u128 = if odd {
                b / c
            } else {
                0
            };
            assert(next == (q + q + added + carry, left as int));
            match q.checked_add(q) {
                None => None,
                Some(double) => match double.checked_add(added) {
                    None => None,
                    Some(sum) => match sum.checked_add(carry) {
                        None => None,
                        Some(quotient) => Some((quotient, left)),
                    },
                },
            }
        },
    }
}

/// A number has this quotient by `c`, and this is left over.
pub open spec fn parts(x: int, c: int, q: int, rest: int) -> bool {
    x == q * c + rest && 0 <= rest < c
}

/// The quotient and the rest of `a * b` by `c`, from those for half of `a`.
spec fn next_parts(a: int, b: int, c: int, q: int, rest: int) -> (int, int) {
    let (q1, rest1) = if rest + rest >= c {
        (q + q + 1, rest + rest - c)
    } else {
        (q + q, rest + rest)
    };
    if a % 2 == 1 {
        if rest1 + b % c >= c {
            (q1 + b / c + 1, rest1 + b % c - c)
        } else {
            (q1 + b / c, rest1 + b % c)
        }
    } else {
        (q1, rest1)
    }
}

proof fn lemma_next_parts(a: int, b: int, c: int, q: int, rest: int)
    requires
        a >= 0,
        b >= 0,
        c > 0,
        q >= 0,
        parts((a / 2) * b, c, q, rest),
    ensures
        ({
            let (next, left) = next_parts(a, b, c, q, rest);
            &&& parts(a * b, c, next, left)
            &&& next >= q + q
        }),
{
    let half = a / 2;
    let (next, left) = next_parts(a, b, c, q, rest);
    assert(b == (b / c) * c + b % c && 0 <= b % c < c && b / c >= 0) by (nonlinear_arith)
        requires
            b >= 0,
            c > 0,
    ;
    assert((half + half) * b == half * b + half * b) by (nonlinear_arith);
    assert((half + half + 1) * b == half * b + half * b + b) by (nonlinear_arith);
    let d = b / c;
    assert((q + q) * c == q * c + q * c) by (nonlinear_arith);
    assert((q + q + 1) * c == q * c + q * c + c) by (nonlinear_arith);
    assert((q + q + d) * c == q * c + q * c + d * c) by (nonlinear_arith);
    assert((q + q + d + 1) * c == q * c + q * c + d * c + c) by (nonlinear_arith);
    assert((q + q + 1 + d + 1) * c == q * c + q * c + d * c + c + c) by (nonlinear_arith);
    assert((q + q + 1 + d) * c == q * c + q * c + d * c + c) by (nonlinear_arith);
}

/// There is one quotient, and one rest.
proof fn lemma_one_quotient(x: int, c: int, q: int, rest: int)
    requires
        parts(x, c, q, rest),
        x >= 0,
    ensures
        x / c == q,
        q >= 0,
{
    vstd::arithmetic::div_mod::lemma_fundamental_div_mod_converse(x, c, q, rest);
    assert(q >= 0) by (nonlinear_arith)
        requires
            q * c + rest >= 0,
            rest < c,
            c > 0,
    ;
}

/// `a * b / c`, rounded towards zero, however large the product is.
pub fn ratio(a: i128, b: i128, c: i128) -> (r: Result<i128, Error>)
    ensures
        divisible(a * b, c as int) ==> r == Ok::<i128, Error>(quot(a * b, c as int) as i128),
        !divisible(a * b, c as int) ==> r == Err::<i128, Error>(Error::Arithmetic),
{
    if c == 0 {
        return Err(Error::Arithmetic);
    }
    let negative: bool = ((a < 0) != (b < 0)) != (c < 0);
    let (x, y, z) = (size_of(a), size_of(b), size_of(c));
    proof {
        assert(size(a as int) * size(b as int) == size(a * b)) by (nonlinear_arith);
        assert(a * b > 0 <==> (a > 0 && b > 0) || (a < 0 && b < 0)) by (nonlinear_arith);
        assert(a * b == 0 <==> a == 0 || b == 0) by (nonlinear_arith);
        assert(0int / (z as int) == 0) by (nonlinear_arith)
            requires
                z > 0,
        ;
    }
    let ghost whole = size(a * b) / (z as int);
    assert(quot(a * b, c as int) == whole || quot(a * b, c as int) == -whole);
    assert(quot(a * b, c as int) == if negative {
        -whole
    } else {
        whole
    });
    match long_ratio(x, y, z) {
        None => {
            proof {
                let (q, rest) = choose|q: int, rest: int| #[trigger]
                    parts(x * y, z as int, q, rest) && q > u128::MAX;
                lemma_one_quotient(x * y, z as int, q, rest);
            }
            Err(Error::Arithmetic)
        },
        Some((q, rest)) => {
            proof {
                lemma_one_quotient(x * y, z as int, q as int, rest as int);
            }
            if q <= i128::MAX as u128 {
                if negative {
                    Ok(-(q as i128))
                } else {
                    Ok(q as i128)
                }
            } else if negative && q == 0x8000_0000_0000_0000_0000_0000_0000_0000 {
                Ok(i128::MIN)
            } else {
                Err(Error::Arithmetic)
            }
        },
    }
}

/// `a * b / c`, rounded up, however large the product is.
pub fn ratio_up(a: i128, b: i128, c: i128) -> (r: Result<i128, Error>)
    requires
        a >= 0,
        b >= 0,
        c > 0,
    ensures
        fits(quot(a * b + c - 1, c as int)) ==> r == Ok::<i128, Error>(
            quot(a * b + c - 1, c as int) as i128,
        ),
        !fits(quot(a * b + c - 1, c as int)) ==> r == Err::<i128, Error>(Error::Arithmetic),
{
    assert(a * b >= 0) by (nonlinear_arith)
        requires
            a >= 0,
            b >= 0,
    ;
    match long_ratio(a as u128, b as u128, c as u128) {
        None => {
            proof {
                let (q, rest) = choose|q: int, rest: int| #[trigger]
                    parts(a * b, c as int, q, rest) && q > u128::MAX;
                lemma_rounded_up(a * b, c as int, q, rest);
            }
            Err(Error::Arithmetic)
        },
        Some((q, rest)) => {
            proof {
                lemma_rounded_up(a * b, c as int, q as int, rest as int);
            }
            if q > i128::MAX as u128 || (q == i128::MAX as u128 && rest > 0) {
                Err(Error::Arithmetic)
            } else if rest > 0 {
                Ok(q as i128 + 1)
            } else {
                Ok(q as i128)
            }
        },
    }
}

/// A quotient that leaves a rest is one more when it is rounded up.
proof fn lemma_rounded_up(x: int, c: int, q: int, rest: int)
    requires
        parts(x, c, q, rest),
        x >= 0,
    ensures
        quot(x + c - 1, c) == if rest > 0 {
            q + 1
        } else {
            q
        },
{
    if rest > 0 {
        assert((q + 1) * c == q * c + c) by (nonlinear_arith);
        lemma_one_quotient(x + c - 1, c, q + 1, rest - 1);
    } else {
        lemma_one_quotient(x + c - 1, c, q, c - 1);
    }
}

/// The middle of two numbers, rounded towards zero.
pub fn midpoint(a: i128, b: i128) -> (r: i128)
    requires
        a <= b,
    ensures
        r == quot(a + b, 2),
{
    if a >= 0 {
        a + (b - a) / 2
    } else if b < 0 {
        b - (b - a) / 2
    } else {
        match over(a + b, 2) {
            Ok(x) => x,
            Err(_) => 0,
        }
    }
}

/// `a * b`, held to the representable range.
pub fn saturating_times(a: i128, b: i128) -> (r: i128)
    ensures
        r == saturate(a * b),
{
    match a.checked_mul(b) {
        Some(x) => x,
        None => {
            proof {
                assert((a > 0 && b > 0) || (a < 0 && b < 0) ==> a * b > 0) by (nonlinear_arith);
                assert((a >= 0 && b <= 0) || (a <= 0 && b >= 0) ==> a * b <= 0) by (nonlinear_arith);
            }
            if (a > 0) == (b > 0) {
                i128::MAX
            } else {
                i128::MIN
            }
        },
    }
}

/// `a + b`, held to the representable range.
pub fn saturating_plus(a: i128, b: i128) -> (r: i128)
    ensures
        r == saturate(a + b),
{
    match a.checked_add(b) {
        Some(x) => x,
        None => if a > 0 {
            i128::MAX
        } else {
            i128::MIN
        },
    }
}

} // verus!
