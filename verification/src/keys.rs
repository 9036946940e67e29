//! Equality of the free-text field values: two titles, scores, points or
//! weights are equal exactly when their mathematical values are.

use vstd::prelude::*;

use crate::gradebook::AssignmentGradeCalcWeight;
use crate::gradebook::AssignmentPoints;
use crate::gradebook::AssignmentScore;
use crate::gradebook::CourseTitle;
use crate::text::str_eq;

verus! {

impl PartialEq for CourseTitle {
    fn eq(&self, other: &CourseTitle) -> (r: bool) {
        let r = match (self, other) {
            (CourseTitle::Parsed(a, b), CourseTitle::Parsed(c, d)) => str_eq(a.as_str(), c.as_str())
                && str_eq(b.as_str(), d.as_str()),
            (CourseTitle::Unparseable(a), CourseTitle::Unparseable(b)) => str_eq(
                a.as_str(),
                b.as_str(),
            ),
            _ => false,
        };
        proof {
            assert(r == (self.deep_view() == other.deep_view()));
        }
        r
    }
}

impl vstd::std_specs::cmp::PartialEqSpecImpl for CourseTitle {
    open spec fn obeys_eq_spec() -> bool {
        true
    }

    open spec fn eq_spec(&self, other: &CourseTitle) -> bool {
        self.deep_view() == other.deep_view()
    }
}

impl PartialEq for AssignmentScore {
    fn eq(&self, other: &AssignmentScore) -> (r: bool) {
        match (self, other) {
            (AssignmentScore::NotDue, AssignmentScore::NotDue) => true,
            (AssignmentScore::NotForGrading, AssignmentScore::NotForGrading) => true,
            (AssignmentScore::NotGraded, AssignmentScore::NotGraded) => true,
            (AssignmentScore::Percentage(a), AssignmentScore::Percentage(b)) => (*a) == (*b),
            (AssignmentScore::Score(a, b), AssignmentScore::Score(c, d)) => (*a) == (*c) && (*b)
                == (*d),
            (AssignmentScore::SeeStandards, AssignmentScore::SeeStandards) => true,
            (AssignmentScore::Unparseable(a), AssignmentScore::Unparseable(b)) => str_eq(
                a.as_str(),
                b.as_str(),
            ),
            _ => false,
        }
    }
}

impl vstd::std_specs::cmp::PartialEqSpecImpl for AssignmentScore {
    open spec fn obeys_eq_spec() -> bool {
        true
    }

    open spec fn eq_spec(&self, other: &AssignmentScore) -> bool {
        self.deep_view() == other.deep_view()
    }
}

impl PartialEq for AssignmentPoints {
    fn eq(&self, other: &AssignmentPoints) -> (r: bool) {
        match (self, other) {
            (AssignmentPoints::Ungraded(a), AssignmentPoints::Ungraded(b)) => (*a) == (*b),
            (AssignmentPoints::Graded(a, b), AssignmentPoints::Graded(c, d)) => (*a) == (*c) && (
            *b) == (*d),
            (AssignmentPoints::Unparseable(a), AssignmentPoints::Unparseable(b)) => str_eq(
                a.as_str(),
                b.as_str(),
            ),
            _ => false,
        }
    }
}

impl vstd::std_specs::cmp::PartialEqSpecImpl for AssignmentPoints {
    open spec fn obeys_eq_spec() -> bool {
        true
    }

    open spec fn eq_spec(&self, other: &AssignmentPoints) -> bool {
        self.deep_view() == other.deep_view()
    }
}

impl PartialEq for AssignmentGradeCalcWeight {
    fn eq(&self, other: &AssignmentGradeCalcWeight) -> (r: bool) {
        match (self, other) {
            (
                AssignmentGradeCalcWeight::Percentage(a),
                AssignmentGradeCalcWeight::Percentage(b),
            ) => (*a) == (*b),
            (
                AssignmentGradeCalcWeight::Unparseable(a),
                AssignmentGradeCalcWeight::Unparseable(b),
            ) => str_eq(a.as_str(), b.as_str()),
            _ => false,
        }
    }
}

impl vstd::std_specs::cmp::PartialEqSpecImpl for AssignmentGradeCalcWeight {
    open spec fn obeys_eq_spec() -> bool {
        true
    }

    open spec fn eq_spec(&self, other: &AssignmentGradeCalcWeight) -> bool {
        self.deep_view() == other.deep_view()
    }
}

} // verus!
