//! The order of [Loc]ations: by line, then by column.
use vstd::prelude::*;
use vstd::std_specs::cmp::{PartialOrdSpec, PartialOrdSpecImpl};
use std::cmp::Ordering;
use crate::ast::Loc;

verus! {

impl PartialOrd for Loc {
    fn partial_cmp(&self, other: &Self) -> (r: Option<Ordering>) {
        let (l1, c1) = (self.line(), self.col());
        let (l2, c2) = (other.line(), other.col());
        if l1 < l2 {
            Some(Ordering::Less)
        } else if l1 > l2 {
            Some(Ordering::Greater)
        } else if c1 < c2 {
            Some(Ordering::Less)
        } else if c1 > c2 {
            Some(Ordering::Greater)
        } else {
            Some(Ordering::Equal)
        }
    }
}

impl PartialOrdSpecImpl for Loc {
    open spec fn obeys_partial_cmp_spec() -> bool {
        true
    }

    open spec fn partial_cmp_spec(&self, other: &Self) -> Option<Ordering> {
        if self.spec_line() < other.spec_line() {
            Some(Ordering::Less)
        } else if self.spec_line() > other.spec_line() {
            Some(Ordering::Greater)
        } else if self.spec_col() < other.spec_col() {
            Some(Ordering::Less)
        } else if self.spec_col() > other.spec_col() {
            Some(Ordering::Greater)
        } else {
            Some(Ordering::Equal)
        }
    }
}

/// Locations are ordered by line, then by column: one comes before another
/// exactly when its line is earlier, or the lines agree and its column is
/// earlier; two locations are equal in the order exactly when they are equal.
pub proof fn law_loc_order(a: Loc, b: Loc)
    ensures
        (PartialOrdSpec::partial_cmp_spec(&a, &b) == Some(Ordering::Less)) <==> (a.spec_line() < b.spec_line() || (
        a.spec_line() == b.spec_line() && a.spec_col() < b.spec_col())),
        (PartialOrdSpec::partial_cmp_spec(&a, &b) == Some(Ordering::Greater)) <==> (PartialOrdSpec::partial_cmp_spec(&b, &a) == Some(
            Ordering::Less,
        )),
        (PartialOrdSpec::partial_cmp_spec(&a, &b) == Some(Ordering::Equal)) <==> (a.spec_line() == b.spec_line()
            && a.spec_col() == b.spec_col()),
{
}

} // verus!
