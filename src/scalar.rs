use crate::text::{i64_value, parse_i64};
use vstd::prelude::*;

verus! {

/// The number type that values and gradients are drawn from.
///
/// Each operation is tied to a spec function of the same meaning, so that the
/// engine's contracts can state which expression over the operands a value is,
/// operation by operation, in the order the engine evaluates them.
pub trait Scalar: Sized + Copy {
    spec fn spec_from_int(n: i64) -> Self;

    spec fn spec_add(a: Self, b: Self) -> Self;

    spec fn spec_sub(a: Self, b: Self) -> Self;

    spec fn spec_mul(a: Self, b: Self) -> Self;

    spec fn spec_div(a: Self, b: Self) -> Self;

    spec fn spec_neg(a: Self) -> Self;

    spec fn spec_sqrt(a: Self) -> Self;

    spec fn spec_eq(a: Self, b: Self) -> bool;

    /// The number that the text `s` writes, if it writes one.
    spec fn spec_parse(s: String) -> Option<Self>;

    fn from_int(n: i64) -> (r: Self)
        ensures
            r == Self::spec_from_int(n),
    ;

    fn add(self, b: Self) -> (r: Self)
        ensures
            r == Self::spec_add(self, b),
    ;

    fn sub(self, b: Self) -> (r: Self)
        ensures
            r == Self::spec_sub(self, b),
    ;

    fn mul(self, b: Self) -> (r: Self)
        ensures
            r == Self::spec_mul(self, b),
    ;

    fn div(self, b: Self) -> (r: Self)
        ensures
            r == Self::spec_div(self, b),
    ;

    fn neg(self) -> (r: Self)
        ensures
            r == Self::spec_neg(self),
    ;

    fn sqrt(self) -> (r: Self)
        ensures
            r == Self::spec_sqrt(self),
    ;

    fn is_equal(self, b: Self) -> (r: bool)
        ensures
            r == Self::spec_eq(self, b),
    ;

    fn parse_text(s: &String) -> (r: Option<Self>)
        ensures
            r == Self::spec_parse(*s),
    ;
}

/// The largest `r` with `r * r <= a` (zero for a negative `a`).
pub open spec fn is_floor_sqrt(a: int, r: int) -> bool {
    0 <= r && r * r <= a && a < (r + 1) * (r + 1)
}

pub proof fn lemma_floor_sqrt_unique(a: int, r: int, q: int)
    requires
        is_floor_sqrt(a, r),
        is_floor_sqrt(a, q),
    ensures
        r == q,
{
    if r < q {
        assert((r + 1) * (r + 1) <= q * q) by (nonlinear_arith)
            requires
                0 <= r < q,
        ;
    } else if q < r {
        assert((q + 1) * (q + 1) <= r * r) by (nonlinear_arith)
            requires
                0 <= q < r,
        ;
    }
}

/// Exact 64-bit integers: `+`, `-`, `*` and negation wrap around, division
/// truncates toward zero and gives zero for a zero divisor (or on overflow),
/// the square root is the floor of the real one (zero below zero), and text
/// is read as std reads an `i64`.
impl Scalar for i64 {
    open spec fn spec_from_int(n: i64) -> i64 {
        n
    }

    open spec fn spec_add(a: i64, b: i64) -> i64 {
        a.wrapping_add(b)
    }

    open spec fn spec_sub(a: i64, b: i64) -> i64 {
        a.wrapping_sub(b)
    }

    open spec fn spec_mul(a: i64, b: i64) -> i64 {
        a.wrapping_mul(b)
    }

    open spec fn spec_div(a: i64, b: i64) -> i64 {
        match a.checked_div(b) {
            Some(q) => q,
            None => 0,
        }
    }

    open spec fn spec_neg(a: i64) -> i64 {
        0i64.wrapping_sub(a)
    }

    open spec fn spec_sqrt(a: i64) -> i64 {
        if a <= 0 {
            0
        } else {
            choose|r: i64| is_floor_sqrt(a as int, r as int)
        }
    }

    open spec fn spec_eq(a: i64, b: i64) -> bool {
        a == b
    }

    fn is_equal(self, b: i64) -> (r: bool) {
        self == b
    }

    open spec fn spec_parse(s: String) -> Option<i64> {
        i64_value(s@)
    }

    fn parse_text(s: &String) -> (r: Option<i64>) {
        parse_i64(s.as_str())
    }

    fn from_int(n: i64) -> (r: i64) {
        n
    }

    fn add(self, b: i64) -> (r: i64) {
        self.wrapping_add(b)
    }

    fn sub(self, b: i64) -> (r: i64) {
        self.wrapping_sub(b)
    }

    fn mul(self, b: i64) -> (r: i64) {
        self.wrapping_mul(b)
    }

    fn div(self, b: i64) -> (r: i64) {
        match self.checked_div(b) {
            Some(q) => q,
            None => 0,
        }
    }

    fn neg(self) -> (r: i64) {
        0i64.wrapping_sub(self)
    }

    fn sqrt(self) -> (r: i64) {
        if self <= 0 {
            return 0;
        }
        // Search for the floor square root in [lo, hi): lo * lo <= self < hi * hi.
        let mut lo: i64 = 0;
        let mut hi: i64 = 3037000500;
        assert(3037000500 * 3037000500 > i64::MAX) by (nonlinear_arith);
        while hi - lo > 1
            invariant
                0 <= lo < hi <= 3037000500,
                lo * lo <= self,
                self < hi * hi,
            decreases hi - lo,
        {
            let mid: i64 = lo + (hi - lo) / 2;
            if mid <= 3037000499 && {
                assert(mid * mid <= 3037000499 * 3037000499) by (nonlinear_arith)
                    requires
                        0 <= mid <= 3037000499,
                ;
                mid * mid <= self
            } {
                lo = mid;
            } else {
                hi = mid;
            }
        }
        proof {
            assert(is_floor_sqrt(self as int, lo as int));
            let c = choose|r: i64| is_floor_sqrt(self as int, r as int);
            lemma_floor_sqrt_unique(self as int, lo as int, c as int);
        }
        lo
    }
}

} // verus!
