//! The mini-grammars on recognized and unrecognized shapes.

use svue::gradebook::AssignmentGradeCalcWeight;
use svue::gradebook::AssignmentPoints;
use svue::gradebook::AssignmentScore;
use svue::gradebook::CourseTitle;
use svue::num::Decimal;

fn whole(n: u64) -> Decimal {
    Decimal { negative: false, mantissa: n, scale: 0 }
}

#[test]
fn score_out_of() {
    assert!(
        AssignmentScore::parse("8 out of 10") == AssignmentScore::Score(whole(8), whole(10))
    );
}

#[test]
fn score_out_of_fraction() {
    assert!(
        AssignmentScore::parse("7.5 out of 10")
            == AssignmentScore::Score(
                Decimal { negative: false, mantissa: 75, scale: 1 },
                whole(10),
            )
    );
}

#[test]
fn score_not_due() {
    assert!(AssignmentScore::parse("Not Due") == AssignmentScore::NotDue);
}

#[test]
fn score_empty_is_not_for_grading() {
    assert!(AssignmentScore::parse("") == AssignmentScore::NotForGrading);
}

#[test]
fn score_not_graded() {
    assert!(AssignmentScore::parse("Not Graded") == AssignmentScore::NotGraded);
}

#[test]
fn score_see_standards() {
    assert!(AssignmentScore::parse("See Standards") == AssignmentScore::SeeStandards);
}

#[test]
fn score_percentage() {
    assert!(AssignmentScore::parse("95") == AssignmentScore::Percentage(whole(95)));
}

#[test]
fn score_percentage_parenthesized() {
    assert!(AssignmentScore::parse("95 ()") == AssignmentScore::Percentage(whole(95)));
}

#[test]
fn score_unparseable() {
    assert!(
        AssignmentScore::parse("pending review")
            == AssignmentScore::Unparseable(String::from("pending review"))
    );
}

#[test]
fn points_possible() {
    assert!(
        AssignmentPoints::parse("10 Points Possible") == AssignmentPoints::Ungraded(whole(10))
    );
}

#[test]
fn points_fraction() {
    assert!(AssignmentPoints::parse("7/10") == AssignmentPoints::Graded(whole(7), whole(10)));
}

#[test]
fn points_fraction_spaced() {
    assert!(
        AssignmentPoints::parse("7.5 / 10")
            == AssignmentPoints::Graded(
                Decimal { negative: false, mantissa: 75, scale: 1 },
                whole(10),
            )
    );
}

#[test]
fn points_unparseable() {
    assert!(
        AssignmentPoints::parse("extra credit")
            == AssignmentPoints::Unparseable(String::from("extra credit"))
    );
}

#[test]
fn title_parsed() {
    assert!(
        CourseTitle::parse("Algebra I (MATH101)")
            == CourseTitle::Parsed(String::from("Algebra I"), String::from("MATH101"))
    );
}

#[test]
fn title_unparseable() {
    assert!(CourseTitle::parse("Lunch") == CourseTitle::Unparseable(String::from("Lunch")));
}

#[test]
fn title_greedy_name() {
    // The name group is greedy: the identifier is the last parenthesized
    // part.
    assert!(
        CourseTitle::parse("Art (Studio) (ART2)")
            == CourseTitle::Parsed(String::from("Art (Studio)"), String::from("ART2"))
    );
}

#[test]
fn weight_percentage() {
    assert!(
        AssignmentGradeCalcWeight::parse("40%")
            == AssignmentGradeCalcWeight::Percentage(whole(40))
    );
}

#[test]
fn weight_trimmed() {
    assert!(
        AssignmentGradeCalcWeight::parse("  40.5%  ")
            == AssignmentGradeCalcWeight::Percentage(
                Decimal { negative: false, mantissa: 405, scale: 1 },
            )
    );
}

#[test]
fn weight_repeated_percent_signs() {
    assert!(
        AssignmentGradeCalcWeight::parse("5%%")
            == AssignmentGradeCalcWeight::Percentage(whole(5))
    );
}

#[test]
fn weight_without_percent_is_unparseable() {
    assert!(
        AssignmentGradeCalcWeight::parse(" 40 ")
            == AssignmentGradeCalcWeight::Unparseable(String::from("40"))
    );
}
