//! The error taxonomy of the reducer.
//!
//! Every inconsistency found during a reduction is fatal: the whole
//! reduction aborts with one of these kinds and no partial recipe.

use vstd::prelude::*;

verus! {

/// Why a reduction failed.
#[derive(Debug)]
pub enum CookError {
    /// The input did not conform to the external grammar.  The reducer
    /// itself never raises this kind; the tokenizing layer does, and callers
    /// see it through the same type.  Carries the tokenizer's message.
    Grammar(String),
    /// A numeric token could not be read as an unsigned integer, or a
    /// quantity left the range this crate represents.  Carries the offending
    /// token text.
    NumericParse(String),
    /// An illegal amount transition or addition: mismatched variants,
    /// mismatched serving-bracket counts, a scaling marker on anything but a
    /// plain quantity, a bracket separator with no or a scalable amount, or
    /// an unrepresentable arithmetic result.
    AmountAlgebra,
    /// Two mentions of one ingredient declared different units.  Carries the
    /// ingredient's normalized name.
    UnitMismatch(String),
}

/// The mathematical shadow of [`CookError`].
pub enum CookErrorModel {
    Grammar(Seq<char>),
    NumericParse(Seq<char>),
    AmountAlgebra,
    UnitMismatch(Seq<char>),
}

impl View for CookError {
    type V = CookErrorModel;

    open spec fn view(&self) -> CookErrorModel {
        match self {
            CookError::Grammar(s) => CookErrorModel::Grammar(s@),
            CookError::NumericParse(s) => CookErrorModel::NumericParse(s@),
            CookError::AmountAlgebra => CookErrorModel::AmountAlgebra,
            CookError::UnitMismatch(s) => CookErrorModel::UnitMismatch(s@),
        }
    }
}

impl CookError {
    /// A short name of the kind, for diagnostics outside this crate.
    pub fn kind_name(&self) -> (r: &'static str)
        ensures
            self matches CookError::Grammar(_) ==> r@ == "grammar error"@,
            self matches CookError::NumericParse(_) ==> r@ == "numeric parse error"@,
            self matches CookError::AmountAlgebra ==> r@ == "amount algebra error"@,
            self matches CookError::UnitMismatch(_) ==> r@ == "unit mismatch"@,
    {
        proof {
            reveal_strlit("grammar error");
            reveal_strlit("numeric parse error");
            reveal_strlit("amount algebra error");
            reveal_strlit("unit mismatch");
        }
        match self {
            CookError::Grammar(_) => "grammar error",
            CookError::NumericParse(_) => "numeric parse error",
            CookError::AmountAlgebra => "amount algebra error",
            CookError::UnitMismatch(_) => "unit mismatch",
        }
    }
}

} // verus!
