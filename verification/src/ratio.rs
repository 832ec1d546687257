//! Exact quotients of two natural numbers.
//!
//! Averages, medians, size ratios and throughputs are kept as an unreduced
//! numerator and denominator, so that nothing is rounded before the caller
//! decides how to present the value.

use vstd::prelude::*;

verus! {

/// The quotient `num / den`, not reduced to lowest terms.
#[derive(Clone, Copy, Debug, PartialEq, Eq, Structural)]
pub struct Ratio {
    pub num: u128,
    pub den: u128,
}

impl Ratio {
    /// The denominator is not zero.
    pub open spec fn wf(self) -> bool {
        self.den > 0
    }

    /// The quotient is at least the integer `k`.
    pub open spec fn at_least(self, k: int) -> bool {
        self.num >= k * self.den
    }

    /// The quotient is at most the integer `k`.
    pub open spec fn at_most(self, k: int) -> bool {
        self.num <= k * self.den
    }

    /// The quotient is exactly the integer `k`.
    pub open spec fn is_int(self, k: int) -> bool {
        self.num == k * self.den
    }

    /// Builds `num / den`, which exists unless `den` is zero.
    pub fn new(num: u128, den: u128) -> (r: Option<Ratio>)
        ensures
            den == 0 <==> r is None,
            den != 0 ==> r == Some(Ratio { num, den }),
    {
        if den == 0 {
            None
        } else {
            Some(Ratio { num, den })
        }
    }

    /// The quotient rounded down to an integer.
    pub fn floor(&self) -> (q: u128)
        requires
            self.wf(),
        ensures
            q == self.num / self.den,
            self.at_least(q as int),
            self.at_most(q + 1),
    {
        let q: u128 = self.num / self.den;
        proof {
            let n = self.num as int;
            let d = self.den as int;
            assert(n >= (n / d) * d && n <= (n / d + 1) * d) by (nonlinear_arith)
                requires
                    d > 0,
                    n >= 0,
            ;
        }
        q
    }

    /// Whether the quotient is an integer.
    pub fn is_whole(&self) -> (b: bool)
        requires
            self.wf(),
        ensures
            b <==> self.num % self.den == 0,
            b <==> self.is_int((self.num / self.den) as int),
    {
        let b: bool = self.num % self.den == 0;
        proof {
            let n = self.num as int;
            let d = self.den as int;
            assert(n == (n / d) * d + n % d) by (nonlinear_arith)
                requires
                    d > 0,
            ;
        }
        b
    }
}

} // verus!
