//! Exact nonnegative rational quantities.
//!
//! A quantity scanned from a recipe is an unsigned integer, and the only
//! operations the amount algebra performs on quantities are addition and
//! division by a further scanned integer.  A pair of a numerator and a
//! positive denominator therefore represents every reachable quantity
//! exactly; an operation whose result has no such representation within
//! `u64` is reported as undefined rather than rounded.

use vstd::prelude::*;

verus! {

/// A quantity `num / den`.  Well-formed values keep `den >= 1`.
#[derive(Clone, Copy, PartialEq, Eq, Structural, Debug)]
pub struct Qty {
    pub num: u64,
    pub den: u64,
}

impl Qty {
    /// A denominator of zero never arises from the constructors below.
    pub open spec fn wf(self) -> bool {
        self.den >= 1
    }

    /// The quantity standing for a scanned integer `n`.
    pub open spec fn spec_from_count(n: u64) -> Qty {
        Qty { num: n, den: 1 }
    }

    /// A slot of a serving-bracket list still waiting for its value.
    pub open spec fn is_placeholder(self) -> bool {
        self.num == 0
    }

    /// Exact sum, undefined where a component exceeds `u64`.
    pub open spec fn spec_sum(a: Qty, b: Qty) -> Option<Qty> {
        if a.num * b.den + b.num * a.den <= u64::MAX && a.den * b.den <= u64::MAX {
            Some(
                Qty {
                    num: (a.num * b.den + b.num * a.den) as u64,
                    den: (a.den * b.den) as u64,
                },
            )
        } else {
            None
        }
    }

    /// Exact division by a scanned integer, undefined for zero or where the
    /// denominator exceeds `u64`.
    pub open spec fn spec_div_by_count(a: Qty, n: u64) -> Option<Qty> {
        if n == 0 {
            None
        } else if a.den * n <= u64::MAX {
            Some(Qty { num: a.num, den: (a.den * n) as u64 })
        } else {
            None
        }
    }

    pub fn from_count(n: u64) -> (r: Qty)
        ensures
            r == Qty::spec_from_count(n),
            r.wf(),
    {
        Qty { num: n, den: 1 }
    }

    pub fn checked_sum(self, other: Qty) -> (r: Option<Qty>)
        ensures
            r == Qty::spec_sum(self, other),
    {
        proof {
            assert(self.num * other.den >= 0 && other.num * self.den >= 0
                && self.den * other.den >= 0) by (nonlinear_arith);
        }
        match (self.num.checked_mul(other.den), other.num.checked_mul(self.den)) {
            (Some(x), Some(y)) => match (x.checked_add(y), self.den.checked_mul(other.den)) {
                (Some(s), Some(d)) => Some(Qty { num: s, den: d }),
                _ => None,
            },
            _ => None,
        }
    }

    pub fn div_by_count(self, n: u64) -> (r: Option<Qty>)
        ensures
            r == Qty::spec_div_by_count(self, n),
    {
        if n == 0 {
            None
        } else {
            match self.den.checked_mul(n) {
                Some(d) => Some(Qty { num: self.num, den: d }),
                None => None,
            }
        }
    }
}

/// Well-formed operands have a well-formed sum.
pub proof fn lemma_sum_wf(a: Qty, b: Qty)
    requires
        a.wf(),
        b.wf(),
    ensures
        Qty::spec_sum(a, b) matches Some(q) ==> q.wf(),
{
    assert(a.den * b.den >= 1) by (nonlinear_arith)
        requires
            a.den >= 1,
            b.den >= 1,
    ;
}

/// Division keeps well-formedness.
pub proof fn lemma_div_wf(a: Qty, n: u64)
    requires
        a.wf(),
    ensures
        Qty::spec_div_by_count(a, n) matches Some(q) ==> q.wf(),
{
    if n != 0 {
        assert(a.den * n >= 1) by (nonlinear_arith)
            requires
                a.den >= 1,
                n >= 1,
        ;
    }
}

/// The sum is commutative, definedness included.
pub proof fn lemma_sum_comm(a: Qty, b: Qty)
    ensures
        Qty::spec_sum(a, b) == Qty::spec_sum(b, a),
{
    assert(a.num * b.den + b.num * a.den == b.num * a.den + a.num * b.den
        && a.den * b.den == b.den * a.den) by (nonlinear_arith);
}

/// The sum is associative wherever both groupings are defined.
pub proof fn lemma_sum_assoc(a: Qty, b: Qty, c: Qty)
    requires
        Qty::spec_sum(a, b) is Some,
        Qty::spec_sum(Qty::spec_sum(a, b)->Some_0, c) is Some,
        Qty::spec_sum(b, c) is Some,
        Qty::spec_sum(a, Qty::spec_sum(b, c)->Some_0) is Some,
    ensures
        Qty::spec_sum(Qty::spec_sum(a, b)->Some_0, c) == Qty::spec_sum(
            a,
            Qty::spec_sum(b, c)->Some_0,
        ),
{
    let ab = Qty::spec_sum(a, b)->Some_0;
    let bc = Qty::spec_sum(b, c)->Some_0;
    assert(ab.num * c.den + c.num * ab.den == a.num * bc.den + bc.num * a.den
        && ab.den * c.den == a.den * bc.den) by (nonlinear_arith)
        requires
            ab.num == a.num * b.den + b.num * a.den,
            ab.den == a.den * b.den,
            bc.num == b.num * c.den + c.num * b.den,
            bc.den == b.den * c.den,
    ;
}

} // verus!
