//! The extension point for hint nodes, and a small toolkit of verified
//! hint functions.
//!
//! A hint node defers its value to logic that is not expressible in the
//! `Add`/`Mul`/`Constant` vocabulary, such as division or square roots. The
//! function attached to a hint node receives only the resolved values of
//! its declared dependencies, keyed by their node identifiers, and must be
//! pure: its specification function pins the returned value down, so the
//! whole evaluation pass stays deterministic.

use std::collections::HashMap;
use vstd::prelude::*;

verus! {

broadcast use vstd::std_specs::hash::group_hash_axioms;

/// A pure function attached to a `Hint` node.
///
/// `spec_value` is the mathematical meaning of the function on a
/// dependency valuation; `value` is the executable computation, and its
/// contract forces the two to agree on every input. The function is
/// invoked repeatedly through a shared reference and must not observably
/// mutate outside state.
pub trait HintFn: Sized {
    /// The value of the hint on a mapping from dependency identifiers to
    /// their resolved values.
    spec fn spec_value(&self, deps: Map<usize, u32>) -> u32;

    /// Computes the hint value from the resolved values of the declared
    /// dependencies.
    fn value(&self, deps: &HashMap<usize, u32>) -> (r: u32)
        ensures
            r == self.spec_value(deps@),
    ;
}

/// Divides one dependency's value by a fixed divisor, rounding down.
///
/// A missing dependency counts as 0, and a zero divisor yields 0 rather
/// than failing: hint functions must be total.
pub struct QuotientHint {
    /// The node identifier whose value is divided.
    pub dependency: usize,
    /// The fixed divisor.
    pub divisor: u32,
}

impl HintFn for QuotientHint {
    open spec fn spec_value(&self, deps: Map<usize, u32>) -> u32 {
        let v = if deps.contains_key(self.dependency) {
            deps[self.dependency]
        } else {
            0u32
        };
        if self.divisor == 0 {
            0u32
        } else {
            v / self.divisor
        }
    }

    fn value(&self, deps: &HashMap<usize, u32>) -> (r: u32) {
        let v: u32 = match deps.get(&self.dependency) {
            Some(x) => *x,
            None => 0,
        };
        if self.divisor == 0 {
            0
        } else {
            v / self.divisor
        }
    }
}

/// Divides one dependency's value by another's, rounding down.
///
/// A missing numerator counts as 0 and a missing denominator as 1; a zero
/// denominator yields 0 rather than failing.
pub struct RatioHint {
    /// The node identifier whose value is the numerator.
    pub numerator: usize,
    /// The node identifier whose value is the denominator.
    pub denominator: usize,
}

impl HintFn for RatioHint {
    open spec fn spec_value(&self, deps: Map<usize, u32>) -> u32 {
        let n = if deps.contains_key(self.numerator) {
            deps[self.numerator]
        } else {
            0u32
        };
        let d = if deps.contains_key(self.denominator) {
            deps[self.denominator]
        } else {
            1u32
        };
        if d == 0 {
            0u32
        } else {
            n / d
        }
    }

    fn value(&self, deps: &HashMap<usize, u32>) -> (r: u32) {
        let n: u32 = match deps.get(&self.numerator) {
            Some(x) => *x,
            None => 0,
        };
        let d: u32 = match deps.get(&self.denominator) {
            Some(x) => *x,
            None => 1,
        };
        if d == 0 {
            0
        } else {
            n / d
        }
    }
}

/// The integer square root of one dependency's value, rounded down.
///
/// A missing dependency counts as 0.
pub struct RootHint {
    /// The node identifier whose value is rooted.
    pub dependency: usize,
}

impl HintFn for RootHint {
    open spec fn spec_value(&self, deps: Map<usize, u32>) -> u32 {
        let v = if deps.contains_key(self.dependency) {
            deps[self.dependency]
        } else {
            0u32
        };
        floor_sqrt(v)
    }

    fn value(&self, deps: &HashMap<usize, u32>) -> (r: u32) {
        let v: u32 = match deps.get(&self.dependency) {
            Some(x) => *x,
            None => 0,
        };
        isqrt(v)
    }
}

/// Whether `r` is the integer square root of `v`, rounded down.
pub open spec fn is_floor_sqrt(v: u32, r: u32) -> bool {
    &&& r * r <= v
    &&& v < (r + 1) * (r + 1)
}

/// The integer square root of `v`, rounded down.
pub open spec fn floor_sqrt(v: u32) -> u32 {
    choose|r: u32| is_floor_sqrt(v, r)
}

/// The rounded-down square root is unique.
proof fn lemma_floor_sqrt_unique(v: u32, a: u32, b: u32)
    requires
        is_floor_sqrt(v, a),
        is_floor_sqrt(v, b),
    ensures
        a == b,
{
    if a < b {
        assert((a as int + 1) * (a as int + 1) <= (b as int) * (b as int)) by (nonlinear_arith)
            requires
                0 <= a as int + 1,
                a as int + 1 <= b as int;
    }
    if b < a {
        assert((b as int + 1) * (b as int + 1) <= (a as int) * (a as int)) by (nonlinear_arith)
            requires
                0 <= b as int + 1,
                b as int + 1 <= a as int;
    }
}

/// Any value meeting [`is_floor_sqrt`] is what [`floor_sqrt`] denotes.
proof fn lemma_floor_sqrt_agrees(v: u32, r: u32)
    requires
        is_floor_sqrt(v, r),
    ensures
        floor_sqrt(v) == r,
{
    assert(exists|x: u32| is_floor_sqrt(v, x));
    lemma_floor_sqrt_unique(v, floor_sqrt(v), r);
}

/// Computes the integer square root of `v`, rounded down, by binary search
/// on the interval whose squares bracket `v`.
pub fn isqrt(v: u32) -> (r: u32)
    ensures
        is_floor_sqrt(v, r),
        r == floor_sqrt(v),
{
    let mut lo: u32 = 0;
    let mut hi: u32 = 65536;
    while lo + 1 < hi
        invariant
            lo < hi <= 65536,
            (lo as int) * (lo as int) <= v as int,
            (v as int) < (hi as int) * (hi as int),
        decreases hi - lo,
    {
        let mid: u32 = lo + (hi - lo) / 2;
        proof {
            assert((mid as int) * (mid as int) < 0x1_0000_0000_0000_0000) by (nonlinear_arith)
                requires
                    0 <= (mid as int),
                    (mid as int) < 65536;
        }
        let sq: u64 = (mid as u64) * (mid as u64);
        if sq <= v as u64 {
            lo = mid;
        } else {
            hi = mid;
        }
    }
    proof {
        lemma_floor_sqrt_agrees(v, lo);
    }
    lo
}

} // verus!
