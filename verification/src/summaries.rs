//! What callers need to know of a function.

use crate::domain::index_set::IndexSet;
use crate::domain::risk::{RiskOrigin, RiskOriginView};
use crate::model::{dup_all, same_all, views, Dup, SameView};
use vstd::prelude::*;

verus! {

/// The parameters that a returned value depends on, and the risks that it carries.
#[derive(Clone, Debug, PartialEq, Eq)]
pub struct ReturnSummary {
    pub parameter_dependencies: IndexSet,
    pub risky_origins: Vec<RiskOrigin>,
}

#[verifier::ext_equal]
pub struct ReturnSummaryView {
    pub parameter_dependencies: Set<usize>,
    pub risky_origins: Seq<RiskOriginView>,
}

impl View for ReturnSummary {
    type V = ReturnSummaryView;

    open spec fn view(&self) -> ReturnSummaryView {
        ReturnSummaryView {
            parameter_dependencies: self.parameter_dependencies@,
            risky_origins: views(self.risky_origins@),
        }
    }
}

impl Dup for ReturnSummary {
    fn dup(&self) -> (r: Self) {
        ReturnSummary {
            parameter_dependencies: self.parameter_dependencies.dup(),
            risky_origins: dup_all(&self.risky_origins),
        }
    }
}

impl SameView for ReturnSummary {
    fn same(&self, other: &Self) -> (r: bool) {
        self.parameter_dependencies.same(&other.parameter_dependencies) && same_all(
            &self.risky_origins,
            &other.risky_origins,
        )
    }
}

#[derive(Clone, Debug, PartialEq, Eq)]
pub struct FunctionSummary {
    pub returns: Vec<ReturnSummary>,
}

impl View for FunctionSummary {
    type V = Seq<ReturnSummaryView>;

    open spec fn view(&self) -> Seq<ReturnSummaryView> {
        views(self.returns@)
    }
}

impl Dup for FunctionSummary {
    fn dup(&self) -> (r: Self) {
        FunctionSummary { returns: dup_all(&self.returns) }
    }
}

impl SameView for FunctionSummary {
    fn same(&self, other: &Self) -> (r: bool) {
        same_all(&self.returns, &other.returns)
    }
}

impl FunctionSummary {
    pub fn empty() -> (r: Self)
        ensures
            r@ == Seq::<ReturnSummaryView>::empty(),
    {
        let r = FunctionSummary { returns: Vec::new() };
        assert(r@ =~= Seq::<ReturnSummaryView>::empty());
        r
    }
}

} // verus!
