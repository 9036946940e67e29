//! Decoding fixture payloads into gradebook trees.

use svue::decoder::Date;
use svue::decoder::DecodingError;
use svue::gradebook::AssignmentPoints;
use svue::gradebook::AssignmentScore;
use svue::gradebook::CourseTitle;
use svue::gradebook::Gradebook;
use svue::num::Decimal;

fn assignment_xml(id: &str, measure: &str, score: &str, points: &str) -> String {
    format!(
        r#"<Assignment Type="HW" GradebookID="{}" Measure="{}" Date="9/2/2015" DueDate="9/9/2015" Score="{}" ScoreType="Raw Score" Points="{}" Notes="" TeacherID="t1" StudentID="s1" HasDropBox="false" DropStartDate="9/1/2015" DropEndDate="9/9/2015"><Standards></Standards></Assignment>"#,
        id, measure, score, points
    )
}

fn gradebook_xml(assignments: &str) -> String {
    format!(
        r#"<Gradebook><ReportingPeriod GradePeriod="Q1" StartDate="9/1/2015" EndDate="11/1/2015"/><ReportPeriod Index="0" GradePeriod="Q1" StartDate="9/1/2015" EndDate="11/1/2015"/><Course HighlightPercentageCutOffForProgressBar="50" Period="1" Room="101" Staff="Ada Smith" StaffEMail="ada@school" Title="Algebra I (MATH101)"><Marks><Mark MarkName="Q1" CalculatedScoreString="A" CalculatedScoreRaw="95.2"><Assignments>{}</Assignments></Mark></Marks></Course></Gradebook>"#,
        assignments
    )
}

#[test]
fn decodes_every_assignment_field_for_field() {
    let a1 = assignment_xml("a1", "HW 1", "8 out of 10", "8/10");
    let a2 = assignment_xml("a2", "Quiz 1", "Not Due", "10 Points Possible");
    let xml = gradebook_xml(&format!("{}{}", a1, a2));
    let g = Gradebook::from_xml(&xml).unwrap();

    assert_eq!(g.courses.len(), 1);
    let course = &g.courses[0];
    assert!(course.title == CourseTitle::Parsed(String::from("Algebra I"), String::from("MATH101")));
    assert_eq!(course.period, 1);
    assert_eq!(course.room, "101");
    assert_eq!(course.staff, "Ada Smith");
    assert_eq!(course.staff_email, "ada@school");
    assert_eq!(course.highlight_percentage_cut_off_for_progress_bar, 50);

    assert_eq!(course.marks.len(), 1);
    let mark = &course.marks[0];
    assert_eq!(mark.mark_name, "Q1");
    assert_eq!(mark.calculated_score_string, "A");
    assert!(mark.calculated_score_raw == Decimal { negative: false, mantissa: 952, scale: 1 });

    assert_eq!(mark.assignments.len(), 2);
    let one = &mark.assignments[0];
    assert_eq!(one.gradebook_id, "a1");
    assert_eq!(one.measure, "HW 1");
    assert!(one.date == Date { year: 2015, month: 9, day: 2 });
    assert!(one.due_date == Date { year: 2015, month: 9, day: 9 });
    assert!(
        one.score
            == AssignmentScore::Score(
                Decimal { negative: false, mantissa: 8, scale: 0 },
                Decimal { negative: false, mantissa: 10, scale: 0 },
            )
    );
    assert_eq!(one.score_type, "Raw Score");
    assert!(
        one.points
            == AssignmentPoints::Graded(
                Decimal { negative: false, mantissa: 8, scale: 0 },
                Decimal { negative: false, mantissa: 10, scale: 0 },
            )
    );
    assert_eq!(one.notes, "");
    assert_eq!(one.teacher_id, "t1");
    assert_eq!(one.student_id, "s1");
    assert!(!one.has_drop_box);
    assert!(one.drop_start_date == Date { year: 2015, month: 9, day: 1 });
    assert!(one.drop_end_date == Date { year: 2015, month: 9, day: 9 });
    assert_eq!(one.standards.len(), 0);

    let two = &mark.assignments[1];
    assert_eq!(two.gradebook_id, "a2");
    assert!(two.score == AssignmentScore::NotDue);
    assert!(
        two.points
            == AssignmentPoints::Ungraded(Decimal { negative: false, mantissa: 10, scale: 0 })
    );
}

#[test]
fn reporting_periods_decode() {
    let xml = gradebook_xml("");
    let g = Gradebook::from_xml(&xml).unwrap();
    assert_eq!(g.reporting_period.grade_period, "Q1");
    assert!(g.reporting_period.start_date == Date { year: 2015, month: 9, day: 1 });
    assert!(g.reporting_period.end_date == Date { year: 2015, month: 11, day: 1 });
    assert_eq!(g.reporting_periods.len(), 1);
    assert_eq!(g.reporting_periods[0].index, 0);
    assert_eq!(g.reporting_periods[0].grade_period, "Q1");
}

#[test]
fn missing_required_attribute_is_named() {
    // The course below carries no Period attribute.
    let xml = r#"<Gradebook><Course HighlightPercentageCutOffForProgressBar="50" Room="101" Staff="Ada Smith" StaffEMail="ada@school" Title="Lunch"><Marks></Marks></Course></Gradebook>"#;
    let r = Gradebook::from_xml(xml);
    assert!(matches!(r, Err(DecodingError::MissingAttribute(a)) if a == "Period"));
}

#[test]
fn malformed_date_attribute_is_named() {
    let a = assignment_xml("a1", "HW 1", "8 out of 10", "8/10").replace("9/2/2015", "junk");
    let xml = gradebook_xml(&a);
    let r = Gradebook::from_xml(&xml);
    assert!(
        matches!(r, Err(DecodingError::DateParseError(a, v)) if a == "Date" && v == "junk")
    );
}

#[test]
fn unexpected_element_fails_the_decode() {
    let xml = r#"<Gradebook><Course HighlightPercentageCutOffForProgressBar="50" Period="1" Room="101" Staff="Ada Smith" StaffEMail="ada@school" Title="Lunch"><Surprise/></Course></Gradebook>"#;
    let r = Gradebook::from_xml(xml);
    assert!(matches!(r, Err(DecodingError::UnexpectedEvent(_))));
}

#[test]
fn truncated_payload_is_unexpected_end() {
    let xml = r#"<Gradebook><Course HighlightPercentageCutOffForProgressBar="50" Period="1" Room="1" Staff="s" StaffEMail="e" Title="T">"#;
    let r = Gradebook::from_xml(xml);
    // The tokenizer reports the truncation before the decoder runs dry.
    assert!(matches!(r, Err(DecodingError::EventError(_)) | Err(DecodingError::UnexpectedEnd)));
}

#[test]
fn standards_structures_decode() {
    let xml = r#"<Gradebook><Course HighlightPercentageCutOffForProgressBar="50" Period="1" Room="101" Staff="Ada Smith" StaffEMail="ada@school" Title="Science K (SCI0)"><Marks><Mark MarkName="Q1" CalculatedScoreString="N/A" CalculatedScoreRaw="0"><GradeCalculationSummary><AssignmentGradeCalc Type="Homework" CalculatedMark="B" Points="16" PointsPossible="20" Weight="40%" WeightedPct="32%"/></GradeCalculationSummary><Assignments><Assignment Type="HW" GradebookID="a1" Measure="HW 1" Date="9/2/2015" DueDate="9/9/2015" Score="See Standards" ScoreType="Raw Score" Points="8/10" Notes="n" TeacherID="t1" StudentID="s1" HasDropBox="true" DropStartDate="9/1/2015" DropEndDate="9/9/2015"><Standards><Standard Subject="Sci" Mark="3" Description="Asks questions" Proficiency="2.5" ProfciencyMaxValue="4"><StandardScreenAssignments><StandardScreenAssignment Type="HW" Assignment="HW 1" DueDate="9/9/2015" Mark="3" Proficiency="2.5" ProfciencyMaxValue="4"/></StandardScreenAssignments></Standard></Standards></Assignment></Assignments><StandardViews><StandardView CalValue="3" Description="Asks questions" Mark="3" Proficiency="" ProfciencyMaxValue="4" Subject="Sci" SubjectID="7"><StandardAssignmentViews><StandardAssignmentView Type="HW" Assignment="HW 1" CalValue="3" DueDate="9/9/2015" GradebookID="a1" Mark="3" Proficiency="2.5" ProfciencyMaxValue="4"/></StandardAssignmentViews></StandardView></StandardViews></Mark></Marks></Course></Gradebook>"#;
    let g = Gradebook::from_xml(xml).unwrap();
    let mark = &g.courses[0].marks[0];

    assert_eq!(mark.grade_calculation_summary.len(), 1);
    let agc = &mark.grade_calculation_summary[0];
    assert_eq!(agc._type, "Homework");
    assert_eq!(agc.calculated_mark, "B");
    assert!(agc.points == Decimal { negative: false, mantissa: 16, scale: 0 });
    assert!(agc.points_possible == Decimal { negative: false, mantissa: 20, scale: 0 });
    assert!(
        agc.weight
            == svue::gradebook::AssignmentGradeCalcWeight::Percentage(Decimal {
                negative: false,
                mantissa: 40,
                scale: 0,
            })
    );

    assert_eq!(mark.assignments.len(), 1);
    let a = &mark.assignments[0];
    assert!(a.score == AssignmentScore::SeeStandards);
    assert!(a.has_drop_box);
    assert_eq!(a.standards.len(), 1);
    let st = &a.standards[0];
    assert_eq!(st.subject, "Sci");
    assert_eq!(st.description, "Asks questions");
    assert!(st.proficiency == Some(Decimal { negative: false, mantissa: 25, scale: 1 }));
    assert!(st.proficiency_max_value == Decimal { negative: false, mantissa: 4, scale: 0 });
    assert_eq!(st.standard_screen_assignments.len(), 1);
    let ssa = &st.standard_screen_assignments[0];
    assert_eq!(ssa.assignment, "HW 1");
    assert!(ssa.due_date == Date { year: 2015, month: 9, day: 9 });

    assert_eq!(mark.standard_views.len(), 1);
    let sv = &mark.standard_views[0];
    assert_eq!(sv.subject, "Sci");
    assert_eq!(sv.subject_id, 7);
    // An unparseable proficiency degrades to absence, not an error.
    assert!(sv.proficiency == None);
    assert_eq!(sv.standard_assignment_views.len(), 1);
    assert_eq!(sv.standard_assignment_views[0].gradebook_id, "a1");
}

#[test]
fn assignment_consumes_through_its_own_end_tag() {
    // A self-closing assignment, with no Standards wrapper at all, owns
    // exactly its start and end events; the next sibling decodes cleanly.
    let bare = r#"<Assignment Type="HW" GradebookID="a1" Measure="HW 1" Date="9/2/2015" DueDate="9/9/2015" Score="Not Due" ScoreType="Raw Score" Points="10 Points Possible" Notes="" TeacherID="t1" StudentID="s1" HasDropBox="false" DropStartDate="9/1/2015" DropEndDate="9/9/2015"/>"#;
    let second = assignment_xml("a2", "HW 2", "Not Due", "10 Points Possible");
    let xml = gradebook_xml(&format!("{}{}", bare, second));
    let g = Gradebook::from_xml(&xml).unwrap();
    let assignments = &g.courses[0].marks[0].assignments;
    assert_eq!(assignments.len(), 2);
    assert_eq!(assignments[0].gradebook_id, "a1");
    assert_eq!(assignments[0].standards.len(), 0);
    assert_eq!(assignments[1].gradebook_id, "a2");
}

#[test]
fn stray_markup_inside_an_assignment_is_rejected() {
    // Markup between the Standards wrapper and the assignment's own end
    // tag belongs to the assignment, which rejects what it cannot place.
    let a = assignment_xml("a1", "HW 1", "Not Due", "10 Points Possible")
        .replace("</Standards></Assignment>", "</Standards><Surprise/></Assignment>");
    let r = Gradebook::from_xml(&gradebook_xml(&a));
    assert!(matches!(r, Err(DecodingError::UnexpectedEvent(_))));
}

#[test]
fn leaf_elements_tolerate_inner_whitespace() {
    let xml = r#"<Gradebook><ReportPeriod Index="0" GradePeriod="Q1" StartDate="9/1/2015" EndDate="11/1/2015">
    </ReportPeriod></Gradebook>"#;
    let g = Gradebook::from_xml(xml).unwrap();
    assert_eq!(g.reporting_periods.len(), 1);
}

#[test]
fn content_inside_a_leaf_element_is_rejected() {
    let xml = r#"<Gradebook><ReportPeriod Index="0" GradePeriod="Q1" StartDate="9/1/2015" EndDate="11/1/2015">text</ReportPeriod></Gradebook>"#;
    let r = Gradebook::from_xml(xml);
    assert!(matches!(r, Err(DecodingError::UnexpectedEvent(_))));
}

#[test]
fn unknown_element_inside_the_gradebook_is_rejected() {
    // The schema is closed at every level: an unknown tag between known
    // members fails the decode instead of being dropped.
    let xml = r#"<Gradebook><Banner/><Course HighlightPercentageCutOffForProgressBar="50" Period="1" Room="101" Staff="Ada Smith" StaffEMail="ada@school" Title="Lunch"><Marks></Marks></Course></Gradebook>"#;
    let r = Gradebook::from_xml(xml);
    assert!(matches!(r, Err(DecodingError::UnexpectedEvent(_))));
}

#[test]
fn character_data_inside_the_gradebook_is_rejected() {
    let xml = r#"<Gradebook>stray text</Gradebook>"#;
    let r = Gradebook::from_xml(xml);
    assert!(matches!(r, Err(DecodingError::UnexpectedEvent(_))));
}

#[test]
fn list_wrappers_inside_the_gradebook_are_passed_over() {
    let xml = r#"<Gradebook><ReportingPeriods><ReportPeriod Index="0" GradePeriod="Q1" StartDate="9/1/2015" EndDate="11/1/2015"/></ReportingPeriods><Courses><Course HighlightPercentageCutOffForProgressBar="50" Period="1" Room="101" Staff="Ada Smith" StaffEMail="ada@school" Title="Lunch"><Marks></Marks></Course></Courses></Gradebook>"#;
    let g = Gradebook::from_xml(xml).unwrap();
    assert_eq!(g.reporting_periods.len(), 1);
    assert_eq!(g.courses.len(), 1);
}
