//! Pairing and changeset building across snapshots.

use svue::diff::AssignmentChange;
use svue::diff::Changeset;
use svue::diff::CourseChange;
use svue::diff::pair_values;
use svue::gradebook::AssignmentPoints;
use svue::gradebook::Gradebook;
use svue::num::Decimal;

fn assignment_xml(id: &str, measure: &str, score: &str, points: &str) -> String {
    format!(
        r#"<Assignment Type="HW" GradebookID="{}" Measure="{}" Date="9/2/2015" DueDate="9/9/2015" Score="{}" ScoreType="Raw Score" Points="{}" Notes="" TeacherID="t1" StudentID="s1" HasDropBox="false" DropStartDate="9/1/2015" DropEndDate="9/9/2015"><Standards></Standards></Assignment>"#,
        id, measure, score, points
    )
}

fn course_xml(title: &str, assignments: &str) -> String {
    format!(
        r#"<Course HighlightPercentageCutOffForProgressBar="50" Period="1" Room="101" Staff="Ada Smith" StaffEMail="ada@school" Title="{}"><Marks><Mark MarkName="Q1" CalculatedScoreString="A" CalculatedScoreRaw="95.2"><Assignments>{}</Assignments></Mark></Marks></Course>"#,
        title, assignments
    )
}

fn gradebook_xml(courses: &str) -> String {
    format!(
        r#"<Gradebook><ReportingPeriod GradePeriod="Q1" StartDate="9/1/2015" EndDate="11/1/2015"/>{}</Gradebook>"#,
        courses
    )
}

fn decode(xml: &str) -> Gradebook {
    Gradebook::from_xml(xml).unwrap()
}

#[test]
fn diff_of_identical_snapshots_is_none() {
    let a = assignment_xml("a1", "HW 1", "8 out of 10", "8/10");
    let x = decode(&gradebook_xml(&course_xml("Algebra I (MATH101)", &a)));
    let y = decode(&gradebook_xml(&course_xml("Algebra I (MATH101)", &a)));
    assert!(Changeset::diff(&x, &y).is_none());
}

#[test]
fn one_changed_score_yields_one_points_change() {
    let keep = assignment_xml("a2", "Quiz 1", "Not Due", "10 Points Possible");
    let before = assignment_xml("a1", "HW 1", "8 out of 10", "7/10");
    let after = assignment_xml("a1", "HW 1", "8 out of 10", "9/10");
    let old = decode(&gradebook_xml(&course_xml(
        "Algebra I (MATH101)",
        &format!("{}{}", before, keep),
    )));
    let new = decode(&gradebook_xml(&course_xml(
        "Algebra I (MATH101)",
        &format!("{}{}", after, keep),
    )));

    let cs = Changeset::diff(&old, &new).unwrap();
    assert_eq!(cs.changes.len(), 1);
    let entry = &cs.changes[0];
    assert!(entry.changes.is_none());
    let acs = entry.assignment_changes.as_ref().unwrap();
    assert_eq!(acs.len(), 1);
    assert_eq!(acs[0].changes.len(), 1);
    let seven = Decimal { negative: false, mantissa: 7, scale: 0 };
    let nine = Decimal { negative: false, mantissa: 9, scale: 0 };
    let ten = Decimal { negative: false, mantissa: 10, scale: 0 };
    assert!(matches!(
        &acs[0].changes[0],
        AssignmentChange::PointsChange { old, new }
            if *old == AssignmentPoints::Graded(seven, ten)
                && *new == AssignmentPoints::Graded(nine, ten)
    ));
}

#[test]
fn dropped_course_is_tagged_once() {
    let a = assignment_xml("a1", "HW 1", "8 out of 10", "8/10");
    let both = format!(
        "{}{}",
        course_xml("Algebra I (MATH101)", &a),
        course_xml("Lunch", &a)
    );
    let old = decode(&gradebook_xml(&both));
    let new = decode(&gradebook_xml(&course_xml("Algebra I (MATH101)", &a)));

    let cs = Changeset::diff(&old, &new).unwrap();
    assert_eq!(cs.changes.len(), 1);
    let entry = &cs.changes[0];
    assert!(entry.old.is_some());
    assert!(entry.new.is_none());
    assert!(entry.assignment_changes.is_none());
    let tags = entry.changes.as_ref().unwrap();
    assert_eq!(tags.len(), 1);
    assert!(matches!(tags[0], CourseChange::Dropped));
}

#[test]
fn added_course_is_tagged_once() {
    let a = assignment_xml("a1", "HW 1", "8 out of 10", "8/10");
    let both = format!(
        "{}{}",
        course_xml("Algebra I (MATH101)", &a),
        course_xml("Lunch", &a)
    );
    let old = decode(&gradebook_xml(&course_xml("Algebra I (MATH101)", &a)));
    let new = decode(&gradebook_xml(&both));

    let cs = Changeset::diff(&old, &new).unwrap();
    assert_eq!(cs.changes.len(), 1);
    let entry = &cs.changes[0];
    assert!(entry.old.is_none());
    assert!(entry.new.is_some());
    let tags = entry.changes.as_ref().unwrap();
    assert_eq!(tags.len(), 1);
    assert!(matches!(tags[0], CourseChange::Added));
}

#[test]
fn scalar_course_fields_diff_field_by_field() {
    let a = assignment_xml("a1", "HW 1", "8 out of 10", "8/10");
    let old = decode(&gradebook_xml(&course_xml("Lunch", &a)));
    let changed = course_xml("Lunch", &a)
        .replace(r#"Period="1""#, r#"Period="2""#)
        .replace("Ada Smith", "Bo Quist")
        .replace(r#"CalculatedScoreString="A""#, r#"CalculatedScoreString="B""#);
    let new = decode(&gradebook_xml(&changed));

    let cs = Changeset::diff(&old, &new).unwrap();
    assert_eq!(cs.changes.len(), 1);
    let tags = cs.changes[0].changes.as_ref().unwrap();
    assert_eq!(tags.len(), 3);
    assert!(matches!(tags[0], CourseChange::PeriodChange { old: 1, new: 2 }));
    assert!(
        matches!(&tags[1], CourseChange::StaffChange { old, new }
            if old == "Ada Smith" && new == "Bo Quist")
    );
    assert!(
        matches!(&tags[2], CourseChange::CalculatedGradeChange { old, new }
            if old == "A" && new == "B")
    );
}

#[test]
fn pairing_is_a_partition_on_sample_data() {
    let a = assignment_xml("a1", "HW 1", "8 out of 10", "8/10");
    let b = assignment_xml("a2", "HW 2", "Not Due", "10 Points Possible");
    let c = assignment_xml("a3", "HW 3", "Not Due", "10 Points Possible");
    let old = decode(&gradebook_xml(&course_xml(
        "Lunch",
        &format!("{}{}", a, b),
    )));
    let new = decode(&gradebook_xml(&course_xml(
        "Lunch",
        &format!("{}{}", c, b),
    )));
    let olds = &old.courses[0].marks[0].assignments;
    let news = &new.courses[0].marks[0].assignments;

    let pairs = pair_values(olds, news);
    // Every old element once, in order; the unmatched new element last.
    assert_eq!(pairs.len(), 3);
    assert_eq!(pairs[0].0.unwrap().gradebook_id, "a1");
    assert!(pairs[0].1.is_none());
    assert_eq!(pairs[1].0.unwrap().gradebook_id, "a2");
    assert_eq!(pairs[1].1.unwrap().gradebook_id, "a2");
    assert!(pairs[2].0.is_none());
    assert_eq!(pairs[2].1.unwrap().gradebook_id, "a3");
}

#[test]
fn pairing_is_key_stable_under_reordering() {
    let a = assignment_xml("a1", "HW 1", "8 out of 10", "8/10");
    let b = assignment_xml("a2", "HW 2", "Not Due", "10 Points Possible");
    let fwd = decode(&gradebook_xml(&course_xml("Lunch", &format!("{}{}", a, b))));
    let rev = decode(&gradebook_xml(&course_xml("Lunch", &format!("{}{}", b, a))));
    let olds = &fwd.courses[0].marks[0].assignments;

    let p1 = pair_values(olds, &fwd.courses[0].marks[0].assignments);
    let p2 = pair_values(olds, &rev.courses[0].marks[0].assignments);
    // Same pairs, whatever the order of the new list.
    assert_eq!(p1.len(), 2);
    assert_eq!(p2.len(), 2);
    for pair in &p1 {
        assert!(p2.iter().any(|q| {
            let same_old = match (pair.0, q.0) {
                (Some(x), Some(y)) => x.gradebook_id == y.gradebook_id,
                (None, None) => true,
                _ => false,
            };
            let same_new = match (pair.1, q.1) {
                (Some(x), Some(y)) => x.gradebook_id == y.gradebook_id,
                (None, None) => true,
                _ => false,
            };
            same_old && same_new
        }));
    }
}

#[test]
fn has_marks_guards_the_differ() {
    let with_marks = decode(&gradebook_xml(&course_xml(
        "Lunch",
        &assignment_xml("a1", "HW 1", "8 out of 10", "8/10"),
    )));
    assert!(with_marks.has_marks());

    let markless = decode(&gradebook_xml(
        r#"<Course HighlightPercentageCutOffForProgressBar="50" Period="1" Room="101" Staff="Ada Smith" StaffEMail="ada@school" Title="Lunch"><Marks></Marks></Course>"#,
    ));
    assert!(!markless.has_marks());
}
