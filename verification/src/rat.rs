//! Exact rational numbers for parameter values and scale factors.
//!
//! Live parameter values are stored as fractions of machine integers instead
//! of floating point, so every decode, scale and formatting step is exact and
//! provable. An unknown value is `Option::None` at the use sites, not a
//! sentinel.

use vstd::prelude::*;

verus! {

/// Largest numerator magnitude a well-formed value may carry.
pub const NUM_LIMIT: i128 = 1_000_000_000_000_000_000_000_000;

/// Largest denominator a well-formed value may carry.
pub const DEN_LIMIT: i128 = 1_000_000_000;

/// Bound on the numerator magnitude and denominator of a scale factor.
pub const SCALE_LIMIT: i128 = 1_000_000;

/// A fraction `num / den`. Always kept with `den >= 1`; the fraction is not
/// necessarily reduced.
#[derive(Clone, Copy, PartialEq, Eq, Structural, Debug)]
pub struct Rat {
    pub num: i128,
    pub den: i128,
}

impl Rat {
    /// A well-formed value: bounded, with a positive denominator.
    pub open spec fn wf(self) -> bool {
        &&& 1 <= self.den <= DEN_LIMIT
        &&& -NUM_LIMIT <= self.num <= NUM_LIMIT
    }

    /// A well-formed scale factor: small enough that scaling any well-formed
    /// raw reading stays in range.
    pub open spec fn scale_wf(self) -> bool {
        &&& 1 <= self.den <= SCALE_LIMIT
        &&& -SCALE_LIMIT <= self.num <= SCALE_LIMIT
    }

    /// Construct a checked well-formed value.
    pub fn new(num: i128, den: i128) -> (r: Option<Rat>)
        ensures
            r is Some <==> (1 <= den <= DEN_LIMIT && -NUM_LIMIT <= num <= NUM_LIMIT),
            r matches Some(v) ==> v == (Rat { num, den }) && v.wf(),
    {
        if 1 <= den && den <= DEN_LIMIT && -NUM_LIMIT <= num && num <= NUM_LIMIT {
            Some(Rat { num, den })
        } else {
            None
        }
    }

    /// Construct a whole number.
    pub fn from_int(num: i64) -> (r: Rat)
        ensures
            r == (Rat { num: num as i128, den: 1i128 }),
            r.wf(),
    {
        Rat { num: num as i128, den: 1 }
    }

    /// Construct a checked scale factor.
    pub fn new_scale(num: i128, den: i128) -> (r: Option<Rat>)
        ensures
            r is Some <==> (1 <= den <= SCALE_LIMIT && -SCALE_LIMIT <= num <= SCALE_LIMIT),
            r matches Some(v) ==> v == (Rat { num, den }) && v.scale_wf() && v.wf(),
    {
        if 1 <= den && den <= SCALE_LIMIT && -SCALE_LIMIT <= num && num <= SCALE_LIMIT {
            Some(Rat { num, den })
        } else {
            None
        }
    }
    /// Exact product, when it stays in the well-formed range.
    pub fn checked_mul(self, other: Rat) -> (r: Option<Rat>)
        ensures
            r is Some <==> (-NUM_LIMIT <= self.num * other.num <= NUM_LIMIT && 1 <= self.den
                * other.den <= DEN_LIMIT),
            r matches Some(v) ==> v == (Rat {
                num: (self.num * other.num) as i128,
                den: (self.den * other.den) as i128,
            }) && v.wf(),
    {
        match (self.num.checked_mul(other.num), self.den.checked_mul(other.den)) {
            (Some(n), Some(d)) => {
                if -NUM_LIMIT <= n && n <= NUM_LIMIT && 1 <= d && d <= DEN_LIMIT {
                    Some(Rat { num: n, den: d })
                } else {
                    None
                }
            },
            _ => None,
        }
    }

    /// Exact difference, when it stays in the well-formed range.
    pub fn checked_sub(self, other: Rat) -> (r: Option<Rat>)
        requires
            self.wf(),
            other.wf(),
        ensures
            r is Some <==> (-NUM_LIMIT <= self.num * other.den - other.num * self.den <= NUM_LIMIT
                && self.den * other.den <= DEN_LIMIT),
            r matches Some(v) ==> v == (Rat {
                num: (self.num * other.den - other.num * self.den) as i128,
                den: (self.den * other.den) as i128,
            }) && v.wf(),
    {
        proof {
            assert(-10_000_000_000_000_000_000_000_000_000_000_000i128 <= self.num * other.den
                <= 10_000_000_000_000_000_000_000_000_000_000_000i128 && -10_000_000_000_000_000_000_000_000_000_000_000i128
                <= other.num * self.den <= 10_000_000_000_000_000_000_000_000_000_000_000i128 && 1 <= self.den
                * other.den <= 10_000_000_000_000_000_000_000_000_000_000_000i128) by (nonlinear_arith)
                requires
                    -NUM_LIMIT <= self.num <= NUM_LIMIT,
                    -NUM_LIMIT <= other.num <= NUM_LIMIT,
                    1 <= self.den <= DEN_LIMIT,
                    1 <= other.den <= DEN_LIMIT,
            ;
        }
        let n: i128 = self.num * other.den - other.num * self.den;
        let d: i128 = self.den * other.den;
        if -NUM_LIMIT <= n && n <= NUM_LIMIT && d <= DEN_LIMIT {
            Some(Rat { num: n, den: d })
        } else {
            None
        }
    }

    /// Whether this value is strictly below the other.
    pub fn lt(self, other: Rat) -> (r: bool)
        requires
            self.wf(),
            other.wf(),
        ensures
            r == (self.num * other.den < other.num * self.den),
    {
        proof {
            assert(-10_000_000_000_000_000_000_000_000_000_000_000i128 <= self.num * other.den
                <= 10_000_000_000_000_000_000_000_000_000_000_000i128 && -10_000_000_000_000_000_000_000_000_000_000_000i128
                <= other.num * self.den <= 10_000_000_000_000_000_000_000_000_000_000_000i128)
                by (nonlinear_arith)
                requires
                    -NUM_LIMIT <= self.num <= NUM_LIMIT,
                    -NUM_LIMIT <= other.num <= NUM_LIMIT,
                    1 <= self.den <= DEN_LIMIT,
                    1 <= other.den <= DEN_LIMIT,
            ;
        }
        self.num * other.den < other.num * self.den
    }

    /// Whether this value is at most the other.
    pub fn le(self, other: Rat) -> (r: bool)
        requires
            self.wf(),
            other.wf(),
        ensures
            r == (self.num * other.den <= other.num * self.den),
    {
        proof {
            assert(-10_000_000_000_000_000_000_000_000_000_000_000i128 <= self.num * other.den
                <= 10_000_000_000_000_000_000_000_000_000_000_000i128 && -10_000_000_000_000_000_000_000_000_000_000_000i128
                <= other.num * self.den <= 10_000_000_000_000_000_000_000_000_000_000_000i128)
                by (nonlinear_arith)
                requires
                    -NUM_LIMIT <= self.num <= NUM_LIMIT,
                    -NUM_LIMIT <= other.num <= NUM_LIMIT,
                    1 <= self.den <= DEN_LIMIT,
                    1 <= other.den <= DEN_LIMIT,
            ;
        }
        self.num * other.den <= other.num * self.den
    }
}

} // verus!
