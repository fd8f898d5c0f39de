//! How many stakes there are: a number that may be larger than any amount.
use crate::arith;
use crate::error::Error;
use crate::stability_pool::model;
use crate::stability_pool::PRECISION;
use vstd::prelude::*;

verus! {

/// Half of the digits of a word.
const HALF: u128 = 0x1_0000_0000_0000_0000;

/// One more than a word holds.
pub open spec fn word() -> int {
    0x1_0000_0000_0000_0000_0000_0000_0000_0000int
}

/// A number of stakes, in two words.
#[derive(Clone, Copy, PartialEq, Eq, Structural, Debug)]
pub struct Stakes {
    pub high: u128,
    pub low: u128,
}

impl View for Stakes {
    type V = int;

    open spec fn view(&self) -> int {
        self.high * word() + self.low
    }
}

impl Stakes {
    /// No stake.
    pub fn none() -> (r: Stakes)
        ensures
            r@ == 0,
    {
        Stakes { high: 0, low: 0 }
    }

    /// The stake of a value that is put in under a product.
    pub fn of(value: i128, p_value: i128) -> (r: Stakes)
        ensures
            r@ == model::stake(value as int, p_value as int),
    {
        if value <= 0 {
            return Stakes::none();
        }
        let base: i128 = if p_value >= 1 {
            p_value
        } else {
            1
        };
        let whole: i128 = value / base;
        let left: i128 = value % base;
        proof {
            let (v, b, w, l) = (value as int, base as int, whole as int, left as int);
            assert(v == w * b + l && 0 <= l < b && 0 <= w <= v) by (nonlinear_arith)
                requires
                    v > 0,
                    b > 0,
                    w == v / b,
                    l == v % b,
            ;
            let x = l * PRECISION + b - 1;
            assert(0 <= l * PRECISION <= (b - 1) * PRECISION) by (nonlinear_arith)
                requires
                    0 <= l <= b - 1,
            ;
            assert(x / b <= PRECISION) by (nonlinear_arith)
                requires
                    x <= (b - 1) * PRECISION + b - 1,
                    b > 0,
            ;
            assert(x / b >= 0) by (nonlinear_arith)
                requires
                    x >= 0,
                    b > 0,
            ;
            assert(v * PRECISION + b - 1 == b * (w * PRECISION) + x) by (nonlinear_arith)
                requires
                    v == w * b + l,
                    x == l * PRECISION + b - 1,
            ;
            vstd::arithmetic::div_mod::lemma_hoist_over_denominator(x, w * PRECISION, b as nat);
            assert(w * PRECISION * b == b * (w * PRECISION)) by (nonlinear_arith);
        }
        let rest: i128 = match arith::ratio_up(left, PRECISION, base) {
            Ok(r) => r,
            Err(_) => 0,
        };
        Stakes::scaled(whole as u128, rest as u128)
    }

    /// So many times [`PRECISION`], and a rest.
    fn scaled(whole: u128, rest: u128) -> (r: Stakes)
        requires
            whole <= i128::MAX,
            rest <= PRECISION,
        ensures
            r@ == whole * PRECISION + rest,
    {
        let unit: u128 = PRECISION as u128;
        let above: u128 = whole / HALF;
        let below: u128 = whole % HALF;
        assert(above <= HALF && below < HALF);
        let top: u128 = above * unit;
        let bottom: u128 = below * unit + rest;
        let middle: u128 = (top % HALF) * HALF;
        let high: u128 = top / HALF;
        if middle <= u128::MAX - bottom {
            Stakes { high, low: middle + bottom }
        } else {
            Stakes { high: high + 1, low: bottom - (u128::MAX - middle) - 1 }
        }
    }

    /// The sum of two numbers of stakes.
    pub fn plus(self, other: Stakes) -> (r: Result<Stakes, Error>)
        ensures
            match r {
                Ok(sum) => sum@ == self@ + other@,
                Err(e) => e == Error::Arithmetic && self@ + other@ >= word() * word(),
            },
    {
        let carry: u128;
        let low: u128;
        if self.low <= u128::MAX - other.low {
            low = self.low + other.low;
            carry = 0;
        } else {
            low = self.low - (u128::MAX - other.low) - 1;
            carry = 1;
        }
        match self.high.checked_add(other.high) {
            None => Err(Error::Arithmetic),
            Some(sum) => match sum.checked_add(carry) {
                None => Err(Error::Arithmetic),
                Some(high) => Ok(Stakes { high, low }),
            },
        }
    }

    /// What is left of a number of stakes without another.
    pub fn minus(self, other: Stakes) -> (r: Result<Stakes, Error>)
        ensures
            match r {
                Ok(left) => left@ == self@ - other@,
                Err(e) => e == Error::Arithmetic && self@ < other@,
            },
    {
        let borrow: u128;
        let low: u128;
        if self.low >= other.low {
            low = self.low - other.low;
            borrow = 0;
        } else {
            low = self.low + (u128::MAX - other.low) + 1;
            borrow = 1;
        }
        match self.high.checked_sub(other.high) {
            None => Err(Error::Arithmetic),
            Some(left) => match left.checked_sub(borrow) {
                None => Err(Error::Arithmetic),
                Some(high) => Ok(Stakes { high, low }),
            },
        }
    }

    /// An amount for each of so many stakes; nothing where there is no stake,
    /// or there are more of them than any amount.
    pub fn each(self, amount: i128) -> (r: i128)
        ensures
            r == if 0 < self@ <= i128::MAX {
                arith::quot(amount as int, self@)
            } else {
                0
            },
    {
        if self.high != 0 || self.low == 0 || self.low > i128::MAX as u128 {
            return 0;
        }
        let count: i128 = self.low as i128;
        proof {
            arith::lemma_quot_range(amount as int, count as int);
        }
        match arith::over(amount, count) {
            Ok(r) => r,
            Err(_) => 0,
        }
    }
}

} // verus!
