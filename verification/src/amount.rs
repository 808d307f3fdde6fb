//! The three-variant amount algebra.
//!
//! One ingredient mention expresses either a fixed quantity, a quantity that
//! scales with the requested servings, or one quantity per declared serving
//! bracket.  The three shapes never coerce into one another: every illegal
//! transition or addition fails with [`CookError::AmountAlgebra`].

use vstd::prelude::*;

use crate::error::{CookError, CookErrorModel};
use crate::qty::Qty;

verus! {

/// The amount attached to an ingredient mention.
#[derive(Debug)]
pub enum Amount {
    /// A quantity to be multiplied by the chosen serving count at render
    /// time.
    Multi(Qty),
    /// One quantity per declared serving bracket, aligned positionally with
    /// the recipe's servings list.
    Servings(Vec<Qty>),
    /// An absolute quantity.
    Single(Qty),
}

/// The mathematical shadow of [`Amount`].
pub enum AmountModel {
    Multi(Qty),
    Servings(Seq<Qty>),
    Single(Qty),
}

impl View for Amount {
    type V = AmountModel;

    open spec fn view(&self) -> AmountModel {
        match self {
            Amount::Multi(q) => AmountModel::Multi(*q),
            Amount::Servings(v) => AmountModel::Servings(v@),
            Amount::Single(q) => AmountModel::Single(*q),
        }
    }
}

/// Every bracket sum of two equally long bracket lists is representable.
pub open spec fn brackets_sums_defined(xs: Seq<Qty>, ys: Seq<Qty>) -> bool {
    forall|i: int| 0 <= i < xs.len() ==> Qty::spec_sum(xs[i], ys[i]) is Some
}

/// The element-wise bracket sum, meaningful under
/// [`brackets_sums_defined`].
pub open spec fn brackets_sum(xs: Seq<Qty>, ys: Seq<Qty>) -> Seq<Qty> {
    Seq::new(xs.len(), |i: int| Qty::spec_sum(xs[i], ys[i])->Some_0)
}

/// What adding two amounts yields: the variant-wise sum for equal variant
/// tags and equal bracket counts, an algebra error for everything else.
pub open spec fn amount_sum(a: AmountModel, b: AmountModel) -> Result<
    AmountModel,
    CookErrorModel,
> {
    match (a, b) {
        (AmountModel::Single(x), AmountModel::Single(y)) => match Qty::spec_sum(x, y) {
            Some(q) => Ok(AmountModel::Single(q)),
            None => Err(CookErrorModel::AmountAlgebra),
        },
        (AmountModel::Multi(x), AmountModel::Multi(y)) => match Qty::spec_sum(x, y) {
            Some(q) => Ok(AmountModel::Multi(q)),
            None => Err(CookErrorModel::AmountAlgebra),
        },
        (AmountModel::Servings(xs), AmountModel::Servings(ys)) => {
            if xs.len() == ys.len() && brackets_sums_defined(xs, ys) {
                Ok(AmountModel::Servings(brackets_sum(xs, ys)))
            } else {
                Err(CookErrorModel::AmountAlgebra)
            }
        },
        _ => Err(CookErrorModel::AmountAlgebra),
    }
}

/// What the scaling marker yields: it is legal on a plain quantity alone.
pub open spec fn amount_promoted(a: AmountModel) -> Result<AmountModel, CookErrorModel> {
    match a {
        AmountModel::Single(x) => Ok(AmountModel::Multi(x)),
        _ => Err(CookErrorModel::AmountAlgebra),
    }
}

/// What the bracket separator yields: a plain quantity starts a two-bracket
/// list whose second slot is a placeholder, a bracket list grows by one
/// placeholder, and a scalable amount is rejected.
pub open spec fn amount_extended(a: AmountModel) -> Result<AmountModel, CookErrorModel> {
    match a {
        AmountModel::Single(x) => Ok(
            AmountModel::Servings(seq![x, Qty::spec_from_count(0)]),
        ),
        AmountModel::Servings(xs) => Ok(AmountModel::Servings(xs.push(Qty::spec_from_count(0)))),
        AmountModel::Multi(_) => Err(CookErrorModel::AmountAlgebra),
    }
}

/// What folding one more scanned integer into the amount under construction
/// yields: the first number makes a plain quantity, a further number divides
/// the active quantity, and a placeholder bracket slot is filled instead of
/// divided.
pub open spec fn amount_applied(a: Option<AmountModel>, n: u64) -> Result<
    AmountModel,
    CookErrorModel,
> {
    match a {
        None => Ok(AmountModel::Single(Qty::spec_from_count(n))),
        Some(AmountModel::Single(x)) => match Qty::spec_div_by_count(x, n) {
            Some(q) => Ok(AmountModel::Single(q)),
            None => Err(CookErrorModel::AmountAlgebra),
        },
        Some(AmountModel::Servings(xs)) => {
            if xs.len() == 0 {
                Err(CookErrorModel::AmountAlgebra)
            } else if xs.last().is_placeholder() {
                Ok(AmountModel::Servings(xs.update(xs.len() - 1, Qty::spec_from_count(n))))
            } else {
                match Qty::spec_div_by_count(xs.last(), n) {
                    Some(q) => Ok(AmountModel::Servings(xs.update(xs.len() - 1, q))),
                    None => Err(CookErrorModel::AmountAlgebra),
                }
            }
        },
        Some(AmountModel::Multi(_)) => Err(CookErrorModel::AmountAlgebra),
    }
}

/// Whether two amounts carry the same variant tag.
pub open spec fn same_variant(a: AmountModel, b: AmountModel) -> bool {
    match (a, b) {
        (AmountModel::Single(_), AmountModel::Single(_)) => true,
        (AmountModel::Multi(_), AmountModel::Multi(_)) => true,
        (AmountModel::Servings(_), AmountModel::Servings(_)) => true,
        _ => false,
    }
}

/// Adding amounts of different variant tags always yields the algebra
/// error.
pub proof fn lemma_sum_variant_mismatch(a: AmountModel, b: AmountModel)
    requires
        !same_variant(a, b),
    ensures
        amount_sum(a, b) == Err::<AmountModel, CookErrorModel>(CookErrorModel::AmountAlgebra),
{
}

/// Every quantity of the amount is well-formed.
pub open spec fn amount_wf(a: AmountModel) -> bool {
    match a {
        AmountModel::Multi(q) => q.wf(),
        AmountModel::Single(q) => q.wf(),
        AmountModel::Servings(xs) => forall|i: int| 0 <= i < xs.len() ==> xs[i].wf(),
    }
}

impl Amount {
    /// Variant-wise addition; both operands must carry the same tag, and
    /// bracket lists must be equally long.
    #[verifier::loop_isolation(false)]
    pub fn add(self, rhs: Amount) -> (r: Result<Amount, CookError>)
        ensures
            match r {
                Ok(a) => amount_sum(self@, rhs@) == Ok::<AmountModel, CookErrorModel>(a@),
                Err(e) => amount_sum(self@, rhs@) == Err::<AmountModel, CookErrorModel>(e@),
            },
    {
        let ghost gself = self@;
        let ghost grhs = rhs@;
        match (self, rhs) {
            (Amount::Single(x), Amount::Single(y)) => match x.checked_sum(y) {
                Some(q) => Ok(Amount::Single(q)),
                None => Err(CookError::AmountAlgebra),
            },
            (Amount::Multi(x), Amount::Multi(y)) => match x.checked_sum(y) {
                Some(q) => Ok(Amount::Multi(q)),
                None => Err(CookError::AmountAlgebra),
            },
            (Amount::Servings(xs), Amount::Servings(ys)) => {
                if xs.len() != ys.len() {
                    return Err(CookError::AmountAlgebra);
                }
                let ghost gxs = xs@;
                let ghost gys = ys@;
                let mut out: Vec<Qty> = Vec::new();
                let mut i: usize = 0;
                while i < xs.len()
                    invariant
                        xs@ == gxs,
                        ys@ == gys,
                        gself == AmountModel::Servings(gxs),
                        grhs == AmountModel::Servings(gys),
                        gxs.len() == gys.len(),
                        0 <= i <= gxs.len(),
                        out@.len() == i as int,
                        forall|j: int| 0 <= j < i ==> Qty::spec_sum(gxs[j], gys[j]) is Some,
                        forall|j: int|
                            0 <= j < i ==> out@[j] == Qty::spec_sum(gxs[j], gys[j])->Some_0,
                    decreases gxs.len() - i,
                {
                    match xs[i].checked_sum(ys[i]) {
                        Some(q) => out.push(q),
                        None => {
                            proof {
                                assert(Qty::spec_sum(gxs[i as int], gys[i as int]) is None);
                                assert(!brackets_sums_defined(gxs, gys));
                            }
                            return Err(CookError::AmountAlgebra);
                        },
                    }
                    i += 1;
                }
                proof {
                    assert(out@ =~= brackets_sum(gxs, gys));
                }
                Ok(Amount::Servings(out))
            },
            (_, _) => Err(CookError::AmountAlgebra),
        }
    }

    /// The scaling marker: turn a plain quantity into a servings-scaled one.
    pub fn promote_to_scalable(self) -> (r: Result<Amount, CookError>)
        ensures
            match r {
                Ok(a) => amount_promoted(self@) == Ok::<AmountModel, CookErrorModel>(a@),
                Err(e) => amount_promoted(self@) == Err::<AmountModel, CookErrorModel>(e@),
            },
    {
        match self {
            Amount::Single(x) => Ok(Amount::Multi(x)),
            _ => Err(CookError::AmountAlgebra),
        }
    }

    /// The bracket separator: open the next serving-bracket slot.
    pub fn extend_with_separator(self) -> (r: Result<Amount, CookError>)
        ensures
            match r {
                Ok(a) => amount_extended(self@) == Ok::<AmountModel, CookErrorModel>(a@),
                Err(e) => amount_extended(self@) == Err::<AmountModel, CookErrorModel>(e@),
            },
    {
        match self {
            Amount::Single(x) => {
                let mut v: Vec<Qty> = Vec::new();
                v.push(x);
                v.push(Qty::from_count(0));
                proof {
                    assert(v@ =~= seq![x, Qty::spec_from_count(0)]);
                }
                Ok(Amount::Servings(v))
            },
            Amount::Servings(mut xs) => {
                xs.push(Qty::from_count(0));
                Ok(Amount::Servings(xs))
            },
            Amount::Multi(_) => Err(CookError::AmountAlgebra),
        }
    }
}

/// Fold one more scanned integer into the amount under construction.
pub fn apply_next_number(a: Option<Amount>, n: u64) -> (r: Result<Amount, CookError>)
    ensures
        match r {
            Ok(out) => amount_applied(view_opt_amount(a), n) == Ok::<
                AmountModel,
                CookErrorModel,
            >(out@),
            Err(e) => amount_applied(view_opt_amount(a), n) == Err::<
                AmountModel,
                CookErrorModel,
            >(e@),
        },
{
    match a {
        None => Ok(Amount::Single(Qty::from_count(n))),
        Some(Amount::Single(x)) => match x.div_by_count(n) {
            Some(q) => Ok(Amount::Single(q)),
            None => Err(CookError::AmountAlgebra),
        },
        Some(Amount::Servings(mut xs)) => {
            if xs.len() == 0 {
                return Err(CookError::AmountAlgebra);
            }
            let last = xs.len() - 1;
            if xs[last].num == 0 {
                xs[last] = Qty::from_count(n);
                Ok(Amount::Servings(xs))
            } else {
                match xs[last].div_by_count(n) {
                    Some(q) => {
                        xs[last] = q;
                        Ok(Amount::Servings(xs))
                    },
                    None => Err(CookError::AmountAlgebra),
                }
            }
        },
        Some(Amount::Multi(_)) => Err(CookError::AmountAlgebra),
    }
}

/// The model of an optional amount.
pub open spec fn view_opt_amount(a: Option<Amount>) -> Option<AmountModel> {
    match a {
        None => None,
        Some(x) => Some(x@),
    }
}

/// Addition keeps every quantity well-formed: a sum of positive
/// denominators is positive.
pub proof fn lemma_amount_sum_preserves_wf(a: AmountModel, b: AmountModel)
    requires
        amount_wf(a),
        amount_wf(b),
        amount_sum(a, b) is Ok,
    ensures
        amount_wf(amount_sum(a, b)->Ok_0),
{
    match (a, b) {
        (AmountModel::Single(x), AmountModel::Single(y)) => {
            crate::qty::lemma_sum_wf(x, y);
        },
        (AmountModel::Multi(x), AmountModel::Multi(y)) => {
            crate::qty::lemma_sum_wf(x, y);
        },
        (AmountModel::Servings(xs), AmountModel::Servings(ys)) => {
            let r = brackets_sum(xs, ys);
            assert forall|i: int| 0 <= i < r.len() implies r[i].wf() by {
                crate::qty::lemma_sum_wf(xs[i], ys[i]);
            }
        },
        _ => {},
    }
}

/// Folding a further scanned integer keeps every quantity well-formed.
pub proof fn lemma_amount_applied_preserves_wf(a: Option<AmountModel>, n: u64)
    requires
        match a {
            None => true,
            Some(x) => amount_wf(x),
        },
        amount_applied(a, n) is Ok,
    ensures
        amount_wf(amount_applied(a, n)->Ok_0),
{
    match a {
        Some(AmountModel::Single(x)) => {
            crate::qty::lemma_div_wf(x, n);
        },
        Some(AmountModel::Servings(xs)) => {
            if !xs.last().is_placeholder() {
                crate::qty::lemma_div_wf(xs.last(), n);
            }
            let r = amount_applied(a, n)->Ok_0->Servings_0;
            assert forall|i: int| 0 <= i < r.len() implies r[i].wf() by {}
        },
        _ => {},
    }
}

/// An exact copy of an amount, rebuilt value by value.
pub fn clone_amount(a: &Amount) -> (r: Amount)
    ensures
        r@ == a@,
{
    match a {
        Amount::Single(q) => Amount::Single(*q),
        Amount::Multi(q) => Amount::Multi(*q),
        Amount::Servings(v) => {
            let mut out: Vec<Qty> = Vec::new();
            let mut i: usize = 0;
            while i < v.len()
                invariant
                    0 <= i <= v@.len(),
                    out@ == v@.subrange(0, i as int),
                decreases v@.len() - i,
            {
                out.push(v[i]);
                proof {
                    assert(out@ =~= v@.subrange(0, i + 1));
                }
                i += 1;
            }
            proof {
                assert(out@ =~= v@);
            }
            Amount::Servings(out)
        },
    }
}

/// An exact copy of an optional amount.
pub fn clone_opt_amount(a: &Option<Amount>) -> (r: Option<Amount>)
    ensures
        view_opt_amount(r) == view_opt_amount(*a),
{
    match a {
        None => None,
        Some(x) => Some(clone_amount(x)),
    }
}

/// Amount addition is commutative, failures included: swapping the operands
/// swaps nothing, for any pair of variants.
pub proof fn lemma_amount_sum_comm(a: AmountModel, b: AmountModel)
    ensures
        amount_sum(a, b) == amount_sum(b, a),
{
    match (a, b) {
        (AmountModel::Single(x), AmountModel::Single(y)) => {
            crate::qty::lemma_sum_comm(x, y);
        },
        (AmountModel::Multi(x), AmountModel::Multi(y)) => {
            crate::qty::lemma_sum_comm(x, y);
        },
        (AmountModel::Servings(xs), AmountModel::Servings(ys)) => {
            if xs.len() == ys.len() {
                assert forall|i: int| 0 <= i < xs.len() implies Qty::spec_sum(xs[i], ys[i])
                    == Qty::spec_sum(ys[i], xs[i]) by {
                    crate::qty::lemma_sum_comm(xs[i], ys[i]);
                }
                if brackets_sums_defined(xs, ys) {
                    assert(brackets_sums_defined(ys, xs));
                    assert(brackets_sum(xs, ys) =~= brackets_sum(ys, xs));
                } else {
                    assert(!brackets_sums_defined(ys, xs));
                }
            }
        },
        _ => {},
    }
}

/// Amount addition is associative wherever both groupings succeed; the
/// premises force one shared variant and, for bracket lists, one shared
/// length.
pub proof fn lemma_amount_sum_assoc(a: AmountModel, b: AmountModel, c: AmountModel)
    requires
        amount_sum(a, b) is Ok,
        amount_sum(amount_sum(a, b)->Ok_0, c) is Ok,
        amount_sum(b, c) is Ok,
        amount_sum(a, amount_sum(b, c)->Ok_0) is Ok,
    ensures
        amount_sum(amount_sum(a, b)->Ok_0, c) == amount_sum(a, amount_sum(b, c)->Ok_0),
{
    match (a, b, c) {
        (AmountModel::Single(x), AmountModel::Single(y), AmountModel::Single(z)) => {
            crate::qty::lemma_sum_assoc(x, y, z);
        },
        (AmountModel::Multi(x), AmountModel::Multi(y), AmountModel::Multi(z)) => {
            crate::qty::lemma_sum_assoc(x, y, z);
        },
        (AmountModel::Servings(xs), AmountModel::Servings(ys), AmountModel::Servings(zs)) => {
            let ab = brackets_sum(xs, ys);
            let bc = brackets_sum(ys, zs);
            assert forall|i: int| 0 <= i < xs.len() implies Qty::spec_sum(ab[i], zs[i])
                == Qty::spec_sum(xs[i], bc[i]) by {
                crate::qty::lemma_sum_assoc(xs[i], ys[i], zs[i]);
            }
            assert(brackets_sum(ab, zs) =~= brackets_sum(xs, bc));
        },
        _ => {},
    }
}

} // verus!
