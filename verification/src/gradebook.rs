//! The gradebook tree and its decoders.
//!
//! Entities form a tree rooted at [`Gradebook`]: courses, per-period marks,
//! assignments, and the standards structures used by standards-based
//! grading. Each entity decodes itself from the event cursor, consuming
//! exactly the markup subtree rooted at its own start tag.

use vstd::prelude::*;

use crate::decoder::Date;
use crate::decoder::DecoderResult;
use crate::decoder::DecodingError;
use crate::decoder::DecodingErrorV;
use crate::decoder::date_attr;
use crate::decoder::dec_attr;
use crate::decoder::end_err;
use crate::decoder::end_error;
use crate::decoder::get_attr;
use crate::decoder::get_attr_owned;
use crate::decoder::get_bool_attr;
use crate::decoder::get_date_attr;
use crate::decoder::get_dec_attr;
use crate::decoder::get_i8_attr;
use crate::decoder::get_opt_dec_attr;
use crate::decoder::bool_attr;
use crate::decoder::i8_attr;
use crate::decoder::opt_dec_attr;
use crate::decoder::req_attr;
use crate::decoder::starts_with_tag;
use crate::events::Event;
use crate::events::EventList;
use crate::events::EventV;
use crate::grammar::parse_points_spec;
use crate::grammar::parse_score_spec;
use crate::grammar::parse_title_spec;
use crate::grammar::parse_weight_spec;
use crate::num::Decimal;
use crate::text::str_eq;

verus! {

/// A whole gradebook snapshot: one reporting period of one student.
#[derive(Debug)]
pub struct Gradebook {
    pub courses: Vec<Course>,
    pub reporting_period: ReportingPeriod,
    pub reporting_periods: Vec<ReportPeriod>,
}

/// A reporting period the portal offers for selection.
#[derive(Debug)]
pub struct ReportPeriod {
    pub end_date: Date,
    pub grade_period: String,
    pub index: i8,
    pub start_date: Date,
}

/// The reporting period a snapshot was taken in.
#[derive(Debug)]
pub struct ReportingPeriod {
    pub end_date: Date,
    pub grade_period: String,
    pub start_date: Date,
}

/// A course title, split into name and identifier when it has the shape
/// `<name> (<id>)`; kept whole otherwise. The title is the pairing key for
/// courses.
#[derive(Debug)]
pub enum CourseTitle {
    Parsed(String, String),
    Unparseable(String),
}

/// One course of the gradebook.
#[derive(Debug)]
pub struct Course {
    pub highlight_percentage_cut_off_for_progress_bar: i8,
    pub marks: Vec<Mark>,
    pub period: i8,
    pub room: String,
    pub staff: String,
    pub staff_email: String,
    pub title: CourseTitle,
}

/// A grading-period snapshot of one course.
#[derive(Debug)]
pub struct Mark {
    pub assignments: Vec<Assignment>,
    pub calculated_score_raw: Decimal,
    pub calculated_score_string: String,
    pub grade_calculation_summary: Vec<AssignmentGradeCalc>,
    pub mark_name: String,
    pub standard_views: Vec<StandardView>,
}

/// Proficiency against one named standard, as shown on the gradebook
/// screen.
#[derive(Debug)]
pub struct StandardView {
    pub cal_value: Decimal,
    pub description: String,
    pub mark: String,
    pub proficiency: Option<Decimal>,
    pub proficiency_max_value: Decimal,
    pub standard_assignment_views: Vec<StandardAssignmentView>,
    pub subject: String,
    pub subject_id: i8,
}

/// One assignment's contribution to a standard.
#[derive(Debug)]
pub struct StandardAssignmentView {
    pub _type: String,
    pub assignment: String,
    pub cal_value: Decimal,
    pub due_date: Date,
    pub gradebook_id: String,
    pub mark: String,
    pub proficiency: Option<Decimal>,
    pub proficiency_max_value: Decimal,
}

/// One grading category's weight breakdown.
#[derive(Debug)]
pub struct AssignmentGradeCalc {
    pub _type: String,
    pub calculated_mark: String,
    pub points: Decimal,
    pub points_possible: Decimal,
    pub weight: AssignmentGradeCalcWeight,
    pub weighted_pct: AssignmentGradeCalcWeight,
}

/// A category weight: a percentage when the text ends in `%` and carries a
/// number, the raw text otherwise.
#[derive(Debug)]
pub enum AssignmentGradeCalcWeight {
    Percentage(Decimal),
    Unparseable(String),
}

/// One assignment. `gradebook_id` is the pairing key across snapshots.
#[derive(Debug)]
pub struct Assignment {
    pub _type: String,
    pub gradebook_id: String,
    pub measure: String,
    pub date: Date,
    pub due_date: Date,
    pub score: AssignmentScore,
    pub score_type: String,
    pub points: AssignmentPoints,
    pub notes: String,
    pub teacher_id: String,
    pub student_id: String,
    pub has_drop_box: bool,
    pub drop_start_date: Date,
    pub drop_end_date: Date,
    pub standards: Vec<Standard>,
}

/// An assignment's score field, decoded from free text.
#[derive(Debug)]
pub enum AssignmentScore {
    NotDue,
    NotForGrading,
    NotGraded,
    Percentage(Decimal),
    Score(Decimal, Decimal),
    SeeStandards,
    Unparseable(String),
}

/// An assignment's points field, decoded from free text.
#[derive(Debug)]
pub enum AssignmentPoints {
    Ungraded(Decimal),
    Graded(Decimal, Decimal),
    Unparseable(String),
}

/// A named standard an assignment is graded against.
#[derive(Debug)]
pub struct Standard {
    pub subject: String,
    pub mark: String,
    pub description: String,
    pub proficiency: Option<Decimal>,
    pub proficiency_max_value: Decimal,
    pub standard_screen_assignments: Vec<StandardScreenAssignment>,
}

/// One assignment as listed on a standard's own screen.
#[derive(Debug)]
pub struct StandardScreenAssignment {
    pub _type: String,
    pub assignment: String,
    pub due_date: Date,
    pub mark: String,
    pub proficiency: Option<Decimal>,
    pub proficiency_max_value: Decimal,
}

// The mathematical values of the entities: strings become character
// sequences, vectors become sequences, everything else is already plain.

pub struct GradebookV {
    pub courses: Seq<CourseV>,
    pub reporting_period: ReportingPeriodV,
    pub reporting_periods: Seq<ReportPeriodV>,
}

pub struct ReportPeriodV {
    pub end_date: Date,
    pub grade_period: Seq<char>,
    pub index: i8,
    pub start_date: Date,
}

pub struct ReportingPeriodV {
    pub end_date: Date,
    pub grade_period: Seq<char>,
    pub start_date: Date,
}

pub enum CourseTitleV {
    Parsed(Seq<char>, Seq<char>),
    Unparseable(Seq<char>),
}

pub struct CourseV {
    pub highlight_percentage_cut_off_for_progress_bar: i8,
    pub marks: Seq<MarkV>,
    pub period: i8,
    pub room: Seq<char>,
    pub staff: Seq<char>,
    pub staff_email: Seq<char>,
    pub title: CourseTitleV,
}

pub struct MarkV {
    pub assignments: Seq<AssignmentV>,
    pub calculated_score_raw: Decimal,
    pub calculated_score_string: Seq<char>,
    pub grade_calculation_summary: Seq<AssignmentGradeCalcV>,
    pub mark_name: Seq<char>,
    pub standard_views: Seq<StandardViewV>,
}

pub struct StandardViewV {
    pub cal_value: Decimal,
    pub description: Seq<char>,
    pub mark: Seq<char>,
    pub proficiency: Option<Decimal>,
    pub proficiency_max_value: Decimal,
    pub standard_assignment_views: Seq<StandardAssignmentViewV>,
    pub subject: Seq<char>,
    pub subject_id: i8,
}

pub struct StandardAssignmentViewV {
    pub _type: Seq<char>,
    pub assignment: Seq<char>,
    pub cal_value: Decimal,
    pub due_date: Date,
    pub gradebook_id: Seq<char>,
    pub mark: Seq<char>,
    pub proficiency: Option<Decimal>,
    pub proficiency_max_value: Decimal,
}

pub struct AssignmentGradeCalcV {
    pub _type: Seq<char>,
    pub calculated_mark: Seq<char>,
    pub points: Decimal,
    pub points_possible: Decimal,
    pub weight: AssignmentGradeCalcWeightV,
    pub weighted_pct: AssignmentGradeCalcWeightV,
}

pub enum AssignmentGradeCalcWeightV {
    Percentage(Decimal),
    Unparseable(Seq<char>),
}

pub struct AssignmentV {
    pub _type: Seq<char>,
    pub gradebook_id: Seq<char>,
    pub measure: Seq<char>,
    pub date: Date,
    pub due_date: Date,
    pub score: AssignmentScoreV,
    pub score_type: Seq<char>,
    pub points: AssignmentPointsV,
    pub notes: Seq<char>,
    pub teacher_id: Seq<char>,
    pub student_id: Seq<char>,
    pub has_drop_box: bool,
    pub drop_start_date: Date,
    pub drop_end_date: Date,
    pub standards: Seq<StandardV>,
}

pub enum AssignmentScoreV {
    NotDue,
    NotForGrading,
    NotGraded,
    Percentage(Decimal),
    Score(Decimal, Decimal),
    SeeStandards,
    Unparseable(Seq<char>),
}

pub enum AssignmentPointsV {
    Ungraded(Decimal),
    Graded(Decimal, Decimal),
    Unparseable(Seq<char>),
}

pub struct StandardV {
    pub subject: Seq<char>,
    pub mark: Seq<char>,
    pub description: Seq<char>,
    pub proficiency: Option<Decimal>,
    pub proficiency_max_value: Decimal,
    pub standard_screen_assignments: Seq<StandardScreenAssignmentV>,
}

pub struct StandardScreenAssignmentV {
    pub _type: Seq<char>,
    pub assignment: Seq<char>,
    pub due_date: Date,
    pub mark: Seq<char>,
    pub proficiency: Option<Decimal>,
    pub proficiency_max_value: Decimal,
}

impl DeepView for Gradebook {
    type V = GradebookV;

    open spec fn deep_view(&self) -> GradebookV {
        GradebookV {
            courses: self.courses.deep_view(),
            reporting_period: self.reporting_period.deep_view(),
            reporting_periods: self.reporting_periods.deep_view(),
        }
    }
}

impl DeepView for ReportPeriod {
    type V = ReportPeriodV;

    open spec fn deep_view(&self) -> ReportPeriodV {
        ReportPeriodV {
            end_date: self.end_date,
            grade_period: self.grade_period@,
            index: self.index,
            start_date: self.start_date,
        }
    }
}

impl DeepView for ReportingPeriod {
    type V = ReportingPeriodV;

    open spec fn deep_view(&self) -> ReportingPeriodV {
        ReportingPeriodV {
            end_date: self.end_date,
            grade_period: self.grade_period@,
            start_date: self.start_date,
        }
    }
}

impl DeepView for CourseTitle {
    type V = CourseTitleV;

    open spec fn deep_view(&self) -> CourseTitleV {
        match self {
            CourseTitle::Parsed(name, id) => CourseTitleV::Parsed(name@, id@),
            CourseTitle::Unparseable(t) => CourseTitleV::Unparseable(t@),
        }
    }
}

impl DeepView for Course {
    type V = CourseV;

    open spec fn deep_view(&self) -> CourseV {
        CourseV {
            highlight_percentage_cut_off_for_progress_bar:
                self.highlight_percentage_cut_off_for_progress_bar,
            marks: self.marks.deep_view(),
            period: self.period,
            room: self.room@,
            staff: self.staff@,
            staff_email: self.staff_email@,
            title: self.title.deep_view(),
        }
    }
}

impl DeepView for Mark {
    type V = MarkV;

    open spec fn deep_view(&self) -> MarkV {
        MarkV {
            assignments: self.assignments.deep_view(),
            calculated_score_raw: self.calculated_score_raw,
            calculated_score_string: self.calculated_score_string@,
            grade_calculation_summary: self.grade_calculation_summary.deep_view(),
            mark_name: self.mark_name@,
            standard_views: self.standard_views.deep_view(),
        }
    }
}

impl DeepView for StandardView {
    type V = StandardViewV;

    open spec fn deep_view(&self) -> StandardViewV {
        StandardViewV {
            cal_value: self.cal_value,
            description: self.description@,
            mark: self.mark@,
            proficiency: self.proficiency,
            proficiency_max_value: self.proficiency_max_value,
            standard_assignment_views: self.standard_assignment_views.deep_view(),
            subject: self.subject@,
            subject_id: self.subject_id,
        }
    }
}

impl DeepView for StandardAssignmentView {
    type V = StandardAssignmentViewV;

    open spec fn deep_view(&self) -> StandardAssignmentViewV {
        StandardAssignmentViewV {
            _type: self._type@,
            assignment: self.assignment@,
            cal_value: self.cal_value,
            due_date: self.due_date,
            gradebook_id: self.gradebook_id@,
            mark: self.mark@,
            proficiency: self.proficiency,
            proficiency_max_value: self.proficiency_max_value,
        }
    }
}

impl DeepView for AssignmentGradeCalc {
    type V = AssignmentGradeCalcV;

    open spec fn deep_view(&self) -> AssignmentGradeCalcV {
        AssignmentGradeCalcV {
            _type: self._type@,
            calculated_mark: self.calculated_mark@,
            points: self.points,
            points_possible: self.points_possible,
            weight: self.weight.deep_view(),
            weighted_pct: self.weighted_pct.deep_view(),
        }
    }
}

impl DeepView for AssignmentGradeCalcWeight {
    type V = AssignmentGradeCalcWeightV;

    open spec fn deep_view(&self) -> AssignmentGradeCalcWeightV {
        match self {
            AssignmentGradeCalcWeight::Percentage(p) => AssignmentGradeCalcWeightV::Percentage(*p),
            AssignmentGradeCalcWeight::Unparseable(t) => AssignmentGradeCalcWeightV::Unparseable(
                t@,
            ),
        }
    }
}

impl DeepView for Assignment {
    type V = AssignmentV;

    open spec fn deep_view(&self) -> AssignmentV {
        AssignmentV {
            _type: self._type@,
            gradebook_id: self.gradebook_id@,
            measure: self.measure@,
            date: self.date,
            due_date: self.due_date,
            score: self.score.deep_view(),
            score_type: self.score_type@,
            points: self.points.deep_view(),
            notes: self.notes@,
            teacher_id: self.teacher_id@,
            student_id: self.student_id@,
            has_drop_box: self.has_drop_box,
            drop_start_date: self.drop_start_date,
            drop_end_date: self.drop_end_date,
            standards: self.standards.deep_view(),
        }
    }
}

impl DeepView for AssignmentScore {
    type V = AssignmentScoreV;

    open spec fn deep_view(&self) -> AssignmentScoreV {
        match self {
            AssignmentScore::NotDue => AssignmentScoreV::NotDue,
            AssignmentScore::NotForGrading => AssignmentScoreV::NotForGrading,
            AssignmentScore::NotGraded => AssignmentScoreV::NotGraded,
            AssignmentScore::Percentage(p) => AssignmentScoreV::Percentage(*p),
            AssignmentScore::Score(a, b) => AssignmentScoreV::Score(*a, *b),
            AssignmentScore::SeeStandards => AssignmentScoreV::SeeStandards,
            AssignmentScore::Unparseable(t) => AssignmentScoreV::Unparseable(t@),
        }
    }
}

impl DeepView for AssignmentPoints {
    type V = AssignmentPointsV;

    open spec fn deep_view(&self) -> AssignmentPointsV {
        match self {
            AssignmentPoints::Ungraded(p) => AssignmentPointsV::Ungraded(*p),
            AssignmentPoints::Graded(a, b) => AssignmentPointsV::Graded(*a, *b),
            AssignmentPoints::Unparseable(t) => AssignmentPointsV::Unparseable(t@),
        }
    }
}

impl DeepView for Standard {
    type V = StandardV;

    open spec fn deep_view(&self) -> StandardV {
        StandardV {
            subject: self.subject@,
            mark: self.mark@,
            description: self.description@,
            proficiency: self.proficiency,
            proficiency_max_value: self.proficiency_max_value,
            standard_screen_assignments: self.standard_screen_assignments.deep_view(),
        }
    }
}

impl DeepView for StandardScreenAssignment {
    type V = StandardScreenAssignmentV;

    open spec fn deep_view(&self) -> StandardScreenAssignmentV {
        StandardScreenAssignmentV {
            _type: self._type@,
            assignment: self.assignment@,
            due_date: self.due_date,
            mark: self.mark@,
            proficiency: self.proficiency,
            proficiency_max_value: self.proficiency_max_value,
        }
    }
}

} // verus!

verus! {
// Copying. Every entity can be copied; a copy has the same value, which
// lets the changeset own its snapshots.
impl Clone for CourseTitle {
    /// Copies the value; the copy has the same mathematical value.
    fn clone(&self) -> (r: Self)
        ensures
            r.deep_view() == self.deep_view(),
    {
        match self {
            CourseTitle::Parsed(a, b) => CourseTitle::Parsed(a.clone(), b.clone()),
            CourseTitle::Unparseable(a) => CourseTitle::Unparseable(a.clone()),
        }
    }
}
impl Clone for AssignmentScore {
    /// Copies the value; the copy has the same mathematical value.
    fn clone(&self) -> (r: Self)
        ensures
            r.deep_view() == self.deep_view(),
    {
        match self {
            AssignmentScore::NotDue => AssignmentScore::NotDue,
            AssignmentScore::NotForGrading => AssignmentScore::NotForGrading,
            AssignmentScore::NotGraded => AssignmentScore::NotGraded,
            AssignmentScore::Percentage(a) => AssignmentScore::Percentage(*a),
            AssignmentScore::Score(a, b) => AssignmentScore::Score(*a, *b),
            AssignmentScore::SeeStandards => AssignmentScore::SeeStandards,
            AssignmentScore::Unparseable(a) => AssignmentScore::Unparseable(a.clone()),
        }
    }
}
impl Clone for AssignmentPoints {
    /// Copies the value; the copy has the same mathematical value.
    fn clone(&self) -> (r: Self)
        ensures
            r.deep_view() == self.deep_view(),
    {
        match self {
            AssignmentPoints::Ungraded(a) => AssignmentPoints::Ungraded(*a),
            AssignmentPoints::Graded(a, b) => AssignmentPoints::Graded(*a, *b),
            AssignmentPoints::Unparseable(a) => AssignmentPoints::Unparseable(a.clone()),
        }
    }
}
impl Clone for AssignmentGradeCalcWeight {
    /// Copies the value; the copy has the same mathematical value.
    fn clone(&self) -> (r: Self)
        ensures
            r.deep_view() == self.deep_view(),
    {
        match self {
            AssignmentGradeCalcWeight::Percentage(a) => AssignmentGradeCalcWeight::Percentage(*a),
            AssignmentGradeCalcWeight::Unparseable(a) => AssignmentGradeCalcWeight::Unparseable(a.clone()),
        }
    }
}
fn clone_mark_vec(v: &Vec<Mark>) -> (r: Vec<Mark>)
    ensures
        r.deep_view() == v.deep_view(),
{
    let mut r: Vec<Mark> = Vec::new();
    let mut i: usize = 0;
    while i < v.len()
        invariant
            i <= v@.len(),
            r@.len() == i,
            forall|j: int| 0 <= j < i ==> (#[trigger] r@[j]).deep_view() == v@[j].deep_view(),
        decreases v@.len() - i,
    {
        let x = &v[i];
        r.push(x.clone());
        i += 1;
    }
    proof {
        assert(r.deep_view() =~= v.deep_view());
    }
    r
}
fn clone_assignment_vec(v: &Vec<Assignment>) -> (r: Vec<Assignment>)
    ensures
        r.deep_view() == v.deep_view(),
{
    let mut r: Vec<Assignment> = Vec::new();
    let mut i: usize = 0;
    while i < v.len()
        invariant
            i <= v@.len(),
            r@.len() == i,
            forall|j: int| 0 <= j < i ==> (#[trigger] r@[j]).deep_view() == v@[j].deep_view(),
        decreases v@.len() - i,
    {
        let x = &v[i];
        r.push(x.clone());
        i += 1;
    }
    proof {
        assert(r.deep_view() =~= v.deep_view());
    }
    r
}
fn clone_assignment_grade_calc_vec(v: &Vec<AssignmentGradeCalc>) -> (r: Vec<AssignmentGradeCalc>)
    ensures
        r.deep_view() == v.deep_view(),
{
    let mut r: Vec<AssignmentGradeCalc> = Vec::new();
    let mut i: usize = 0;
    while i < v.len()
        invariant
            i <= v@.len(),
            r@.len() == i,
            forall|j: int| 0 <= j < i ==> (#[trigger] r@[j]).deep_view() == v@[j].deep_view(),
        decreases v@.len() - i,
    {
        let x = &v[i];
        r.push(x.clone());
        i += 1;
    }
    proof {
        assert(r.deep_view() =~= v.deep_view());
    }
    r
}
fn clone_standard_view_vec(v: &Vec<StandardView>) -> (r: Vec<StandardView>)
    ensures
        r.deep_view() == v.deep_view(),
{
    let mut r: Vec<StandardView> = Vec::new();
    let mut i: usize = 0;
    while i < v.len()
        invariant
            i <= v@.len(),
            r@.len() == i,
            forall|j: int| 0 <= j < i ==> (#[trigger] r@[j]).deep_view() == v@[j].deep_view(),
        decreases v@.len() - i,
    {
        let x = &v[i];
        r.push(x.clone());
        i += 1;
    }
    proof {
        assert(r.deep_view() =~= v.deep_view());
    }
    r
}
fn clone_standard_assignment_view_vec(v: &Vec<StandardAssignmentView>) -> (r: Vec<StandardAssignmentView>)
    ensures
        r.deep_view() == v.deep_view(),
{
    let mut r: Vec<StandardAssignmentView> = Vec::new();
    let mut i: usize = 0;
    while i < v.len()
        invariant
            i <= v@.len(),
            r@.len() == i,
            forall|j: int| 0 <= j < i ==> (#[trigger] r@[j]).deep_view() == v@[j].deep_view(),
        decreases v@.len() - i,
    {
        let x = &v[i];
        r.push(x.clone());
        i += 1;
    }
    proof {
        assert(r.deep_view() =~= v.deep_view());
    }
    r
}
fn clone_standard_vec(v: &Vec<Standard>) -> (r: Vec<Standard>)
    ensures
        r.deep_view() == v.deep_view(),
{
    let mut r: Vec<Standard> = Vec::new();
    let mut i: usize = 0;
    while i < v.len()
        invariant
            i <= v@.len(),
            r@.len() == i,
            forall|j: int| 0 <= j < i ==> (#[trigger] r@[j]).deep_view() == v@[j].deep_view(),
        decreases v@.len() - i,
    {
        let x = &v[i];
        r.push(x.clone());
        i += 1;
    }
    proof {
        assert(r.deep_view() =~= v.deep_view());
    }
    r
}
fn clone_standard_screen_assignment_vec(v: &Vec<StandardScreenAssignment>) -> (r: Vec<StandardScreenAssignment>)
    ensures
        r.deep_view() == v.deep_view(),
{
    let mut r: Vec<StandardScreenAssignment> = Vec::new();
    let mut i: usize = 0;
    while i < v.len()
        invariant
            i <= v@.len(),
            r@.len() == i,
            forall|j: int| 0 <= j < i ==> (#[trigger] r@[j]).deep_view() == v@[j].deep_view(),
        decreases v@.len() - i,
    {
        let x = &v[i];
        r.push(x.clone());
        i += 1;
    }
    proof {
        assert(r.deep_view() =~= v.deep_view());
    }
    r
}
fn clone_course_vec(v: &Vec<Course>) -> (r: Vec<Course>)
    ensures
        r.deep_view() == v.deep_view(),
{
    let mut r: Vec<Course> = Vec::new();
    let mut i: usize = 0;
    while i < v.len()
        invariant
            i <= v@.len(),
            r@.len() == i,
            forall|j: int| 0 <= j < i ==> (#[trigger] r@[j]).deep_view() == v@[j].deep_view(),
        decreases v@.len() - i,
    {
        let x = &v[i];
        r.push(x.clone());
        i += 1;
    }
    proof {
        assert(r.deep_view() =~= v.deep_view());
    }
    r
}
fn clone_report_period_vec(v: &Vec<ReportPeriod>) -> (r: Vec<ReportPeriod>)
    ensures
        r.deep_view() == v.deep_view(),
{
    let mut r: Vec<ReportPeriod> = Vec::new();
    let mut i: usize = 0;
    while i < v.len()
        invariant
            i <= v@.len(),
            r@.len() == i,
            forall|j: int| 0 <= j < i ==> (#[trigger] r@[j]).deep_view() == v@[j].deep_view(),
        decreases v@.len() - i,
    {
        let x = &v[i];
        r.push(x.clone());
        i += 1;
    }
    proof {
        assert(r.deep_view() =~= v.deep_view());
    }
    r
}
impl Clone for ReportPeriod {
    /// Copies the value; the copy has the same mathematical value.
    fn clone(&self) -> (r: Self)
        ensures
            r.deep_view() == self.deep_view(),
    {
        ReportPeriod {
            end_date: self.end_date,
            grade_period: self.grade_period.clone(),
            index: self.index,
            start_date: self.start_date,
        }
    }
}
impl Clone for ReportingPeriod {
    /// Copies the value; the copy has the same mathematical value.
    fn clone(&self) -> (r: Self)
        ensures
            r.deep_view() == self.deep_view(),
    {
        ReportingPeriod {
            end_date: self.end_date,
            grade_period: self.grade_period.clone(),
            start_date: self.start_date,
        }
    }
}
impl Clone for Course {
    /// Copies the value; the copy has the same mathematical value.
    fn clone(&self) -> (r: Self)
        ensures
            r.deep_view() == self.deep_view(),
    {
        Course {
            highlight_percentage_cut_off_for_progress_bar: self.highlight_percentage_cut_off_for_progress_bar,
            marks: clone_mark_vec(&self.marks),
            period: self.period,
            room: self.room.clone(),
            staff: self.staff.clone(),
            staff_email: self.staff_email.clone(),
            title: self.title.clone(),
        }
    }
}
impl Clone for Mark {
    /// Copies the value; the copy has the same mathematical value.
    fn clone(&self) -> (r: Self)
        ensures
            r.deep_view() == self.deep_view(),
    {
        Mark {
            assignments: clone_assignment_vec(&self.assignments),
            calculated_score_raw: self.calculated_score_raw,
            calculated_score_string: self.calculated_score_string.clone(),
            grade_calculation_summary: clone_assignment_grade_calc_vec(&self.grade_calculation_summary),
            mark_name: self.mark_name.clone(),
            standard_views: clone_standard_view_vec(&self.standard_views),
        }
    }
}
impl Clone for StandardView {
    /// Copies the value; the copy has the same mathematical value.
    fn clone(&self) -> (r: Self)
        ensures
            r.deep_view() == self.deep_view(),
    {
        StandardView {
            cal_value: self.cal_value,
            description: self.description.clone(),
            mark: self.mark.clone(),
            proficiency: self.proficiency,
            proficiency_max_value: self.proficiency_max_value,
            standard_assignment_views: clone_standard_assignment_view_vec(&self.standard_assignment_views),
            subject: self.subject.clone(),
            subject_id: self.subject_id,
        }
    }
}
impl Clone for StandardAssignmentView {
    /// Copies the value; the copy has the same mathematical value.
    fn clone(&self) -> (r: Self)
        ensures
            r.deep_view() == self.deep_view(),
    {
        StandardAssignmentView {
            _type: self._type.clone(),
            assignment: self.assignment.clone(),
            cal_value: self.cal_value,
            due_date: self.due_date,
            gradebook_id: self.gradebook_id.clone(),
            mark: self.mark.clone(),
            proficiency: self.proficiency,
            proficiency_max_value: self.proficiency_max_value,
        }
    }
}
impl Clone for AssignmentGradeCalc {
    /// Copies the value; the copy has the same mathematical value.
    fn clone(&self) -> (r: Self)
        ensures
            r.deep_view() == self.deep_view(),
    {
        AssignmentGradeCalc {
            _type: self._type.clone(),
            calculated_mark: self.calculated_mark.clone(),
            points: self.points,
            points_possible: self.points_possible,
            weight: self.weight.clone(),
            weighted_pct: self.weighted_pct.clone(),
        }
    }
}
impl Clone for Assignment {
    /// Copies the value; the copy has the same mathematical value.
    fn clone(&self) -> (r: Self)
        ensures
            r.deep_view() == self.deep_view(),
    {
        Assignment {
            _type: self._type.clone(),
            gradebook_id: self.gradebook_id.clone(),
            measure: self.measure.clone(),
            date: self.date,
            due_date: self.due_date,
            score: self.score.clone(),
            score_type: self.score_type.clone(),
            points: self.points.clone(),
            notes: self.notes.clone(),
            teacher_id: self.teacher_id.clone(),
            student_id: self.student_id.clone(),
            has_drop_box: self.has_drop_box,
            drop_start_date: self.drop_start_date,
            drop_end_date: self.drop_end_date,
            standards: clone_standard_vec(&self.standards),
        }
    }
}
impl Clone for Standard {
    /// Copies the value; the copy has the same mathematical value.
    fn clone(&self) -> (r: Self)
        ensures
            r.deep_view() == self.deep_view(),
    {
        Standard {
            subject: self.subject.clone(),
            mark: self.mark.clone(),
            description: self.description.clone(),
            proficiency: self.proficiency,
            proficiency_max_value: self.proficiency_max_value,
            standard_screen_assignments: clone_standard_screen_assignment_vec(&self.standard_screen_assignments),
        }
    }
}
impl Clone for StandardScreenAssignment {
    /// Copies the value; the copy has the same mathematical value.
    fn clone(&self) -> (r: Self)
        ensures
            r.deep_view() == self.deep_view(),
    {
        StandardScreenAssignment {
            _type: self._type.clone(),
            assignment: self.assignment.clone(),
            due_date: self.due_date,
            mark: self.mark.clone(),
            proficiency: self.proficiency,
            proficiency_max_value: self.proficiency_max_value,
        }
    }
}
impl Clone for Gradebook {
    /// Copies the value; the copy has the same mathematical value.
    fn clone(&self) -> (r: Self)
        ensures
            r.deep_view() == self.deep_view(),
    {
        Gradebook {
            courses: clone_course_vec(&self.courses),
            reporting_period: self.reporting_period.clone(),
            reporting_periods: clone_report_period_vec(&self.reporting_periods),
        }
    }
}
} // verus!

verus! {
// Decoding. Each entity's spec gives, for an event sequence and a cursor
// position, exactly the value and the position one past the entity's own
// closing tag, or the error the decode aborts with; the exec decoders are
// proved equal to it.

/// Consuming whitespace up to and through the element's own closing tag,
/// which every decoder does last: an entity owns exactly the markup
/// subtree rooted at its start tag.
pub open spec fn leaf_close(evs: Seq<EventV>, terr: Option<Seq<char>>, i: int, tag: Seq<char>) -> Result<
    int,
    DecodingErrorV,
>
    decreases evs.len() - i,
{
    if i < 0 || i >= evs.len() {
        Err(end_err(terr))
    } else {
        match evs[i] {
            EventV::EndElement { name } => if name == tag {
                Ok(i + 1)
            } else {
                Err(DecodingErrorV::UnexpectedEvent(evs[i]))
            },
            EventV::Whitespace(_) => leaf_close(evs, terr, i + 1, tag),
            _ => Err(DecodingErrorV::UnexpectedEvent(evs[i])),
        }
    }
}

/// Consumes whitespace up to and through the element's own closing tag.
#[verifier::loop_isolation(false)]
fn close_element(events: &EventList, i: &mut usize, tag: &str) -> (r: Result<(), DecodingError>)
    requires
        *old(i) <= events.items@.len(),
    ensures
        ({
            let s = leaf_close(
                events.deep_view().items,
                events.deep_view().error,
                *old(i) as int,
                tag@,
            );
            match r {
                Ok(_) => s matches Ok(j) && j == *final(i) as int && *old(i) < *final(i)
                    <= events.items@.len(),
                Err(e) => s matches Err(ev) && ev == e.deep_view(),
            }
        }),
        *old(i) <= *final(i) <= events.items@.len(),
{
    let ghost evs = events.deep_view().items;
    let ghost terr = events.deep_view().error;
    let ghost i0 = *i as int;
    let n = events.items.len();
    while *i < n
        invariant
            i0 <= *i as int,
            *i <= n,
            leaf_close(evs, terr, i0, tag@) == leaf_close(evs, terr, *i as int, tag@),
        decreases n - *i,
    {
        let ev = &events.items[*i];
        match ev {
            Event::EndElement { name } => {
                if str_eq(name.as_str(), tag) {
                    *i += 1;
                    return Ok(());
                }
                return Err(DecodingError::UnexpectedEvent(ev.clone()));
            },
            Event::Whitespace(_) => {
                *i += 1;
            },
            _ => {
                return Err(DecodingError::UnexpectedEvent(ev.clone()));
            },
        }
    }
    Err(end_error(events))
}

/// The value a `ReportPeriod` element's attributes denote.
pub open spec fn report_period_of(attrs: Seq<(Seq<char>, Seq<char>)>) -> Result<
    ReportPeriodV,
    DecodingErrorV,
> {
    match date_attr(attrs, "EndDate"@) {
            Err(e) => Err(e),
            Ok(end_date) => match req_attr(attrs, "GradePeriod"@) {
            Err(e) => Err(e),
            Ok(grade_period) => match i8_attr(attrs, "Index"@) {
            Err(e) => Err(e),
            Ok(index) => match date_attr(attrs, "StartDate"@) {
            Err(e) => Err(e),
            Ok(start_date) => Ok(ReportPeriodV { end_date: end_date, grade_period: grade_period, index: index, start_date: start_date }),
        },
        },
        },
        }
}

/// Decoding a `ReportPeriod` element whose start event stands at `i`.
pub open spec fn decode_report_period(evs: Seq<EventV>, terr: Option<Seq<char>>, i: int) -> Result<
    (ReportPeriodV, int),
    DecodingErrorV,
> {
    if i < 0 || i >= evs.len() {
        Err(end_err(terr))
    } else {
        match evs[i] {
            EventV::StartElement { name, attributes } => {
                if name == "ReportPeriod"@ {
                    match report_period_of(attributes) {
                        Ok(v) => match leaf_close(evs, terr, i + 1, "ReportPeriod"@) {
                            Ok(j) => Ok((v, j)),
                            Err(e) => Err(e),
                        },
                        Err(e) => Err(e),
                    }
                } else {
                    Err(DecodingErrorV::UnexpectedEvent(evs[i]))
                }
            },
            _ => Err(DecodingErrorV::UnexpectedEvent(evs[i])),
        }
    }
}
impl ReportPeriod {
    /// Decodes one `ReportPeriod` element through its own closing tag.
    pub fn from_event(events: &EventList, i: &mut usize) -> (r: DecoderResult<ReportPeriod>)
        requires
            *old(i) <= events.items@.len(),
        ensures
            ({
                let s = decode_report_period(
                    events.deep_view().items,
                    events.deep_view().error,
                    *old(i) as int,
                );
                match r {
                    Ok(v) => s matches Ok(p) && p.0 == v.deep_view() && p.1 == *final(i) as int
                        && *old(i) < *final(i) <= events.items@.len(),
                    Err(e) => s matches Err(ev) && ev == e.deep_view(),
                }
            }),
            *old(i) <= *final(i) <= events.items@.len(),
            !starts_with_tag(
                events.deep_view().items,
                *old(i) as int,
                "ReportPeriod"@,
            ) ==> *final(i) == *old(i),
    {
        if *i >= events.items.len() {
            return Err(end_error(events));
        }
        let ev = &events.items[*i];
        match ev {
            Event::StartElement { name, attributes } => {
                if str_eq(name.as_str(), "ReportPeriod") {
                    *i += 1;
                    let end_date = match get_date_attr(attributes, "EndDate") {
                        Ok(v) => v,
                        Err(e) => {
                            return Err(e);
                        },
                    };
                    let grade_period = match get_attr_owned(attributes, "GradePeriod") {
                        Ok(v) => v,
                        Err(e) => {
                            return Err(e);
                        },
                    };
                    let index = match get_i8_attr(attributes, "Index") {
                        Ok(v) => v,
                        Err(e) => {
                            return Err(e);
                        },
                    };
                    let start_date = match get_date_attr(attributes, "StartDate") {
                        Ok(v) => v,
                        Err(e) => {
                            return Err(e);
                        },
                    };
                    match close_element(events, i, "ReportPeriod") {
                        Ok(_) => (),
                        Err(e) => {
                            return Err(e);
                        },
                    }
                    Ok(ReportPeriod { end_date, grade_period, index, start_date })
                } else {
                    Err(DecodingError::UnexpectedEvent(ev.clone()))
                }
            },
            _ => Err(DecodingError::UnexpectedEvent(ev.clone())),
        }
    }
}
/// The value a `ReportingPeriod` element's attributes denote.
pub open spec fn reporting_period_of(attrs: Seq<(Seq<char>, Seq<char>)>) -> Result<
    ReportingPeriodV,
    DecodingErrorV,
> {
    match date_attr(attrs, "EndDate"@) {
            Err(e) => Err(e),
            Ok(end_date) => match req_attr(attrs, "GradePeriod"@) {
            Err(e) => Err(e),
            Ok(grade_period) => match date_attr(attrs, "StartDate"@) {
            Err(e) => Err(e),
            Ok(start_date) => Ok(ReportingPeriodV { end_date: end_date, grade_period: grade_period, start_date: start_date }),
        },
        },
        }
}

/// Decoding a `ReportingPeriod` element whose start event stands at `i`.
pub open spec fn decode_reporting_period(evs: Seq<EventV>, terr: Option<Seq<char>>, i: int) -> Result<
    (ReportingPeriodV, int),
    DecodingErrorV,
> {
    if i < 0 || i >= evs.len() {
        Err(end_err(terr))
    } else {
        match evs[i] {
            EventV::StartElement { name, attributes } => {
                if name == "ReportingPeriod"@ {
                    match reporting_period_of(attributes) {
                        Ok(v) => match leaf_close(evs, terr, i + 1, "ReportingPeriod"@) {
                            Ok(j) => Ok((v, j)),
                            Err(e) => Err(e),
                        },
                        Err(e) => Err(e),
                    }
                } else {
                    Err(DecodingErrorV::UnexpectedEvent(evs[i]))
                }
            },
            _ => Err(DecodingErrorV::UnexpectedEvent(evs[i])),
        }
    }
}
impl ReportingPeriod {
    /// Decodes one `ReportingPeriod` element through its own closing tag.
    pub fn from_event(events: &EventList, i: &mut usize) -> (r: DecoderResult<ReportingPeriod>)
        requires
            *old(i) <= events.items@.len(),
        ensures
            ({
                let s = decode_reporting_period(
                    events.deep_view().items,
                    events.deep_view().error,
                    *old(i) as int,
                );
                match r {
                    Ok(v) => s matches Ok(p) && p.0 == v.deep_view() && p.1 == *final(i) as int
                        && *old(i) < *final(i) <= events.items@.len(),
                    Err(e) => s matches Err(ev) && ev == e.deep_view(),
                }
            }),
            *old(i) <= *final(i) <= events.items@.len(),
            !starts_with_tag(
                events.deep_view().items,
                *old(i) as int,
                "ReportingPeriod"@,
            ) ==> *final(i) == *old(i),
    {
        if *i >= events.items.len() {
            return Err(end_error(events));
        }
        let ev = &events.items[*i];
        match ev {
            Event::StartElement { name, attributes } => {
                if str_eq(name.as_str(), "ReportingPeriod") {
                    *i += 1;
                    let end_date = match get_date_attr(attributes, "EndDate") {
                        Ok(v) => v,
                        Err(e) => {
                            return Err(e);
                        },
                    };
                    let grade_period = match get_attr_owned(attributes, "GradePeriod") {
                        Ok(v) => v,
                        Err(e) => {
                            return Err(e);
                        },
                    };
                    let start_date = match get_date_attr(attributes, "StartDate") {
                        Ok(v) => v,
                        Err(e) => {
                            return Err(e);
                        },
                    };
                    match close_element(events, i, "ReportingPeriod") {
                        Ok(_) => (),
                        Err(e) => {
                            return Err(e);
                        },
                    }
                    Ok(ReportingPeriod { end_date, grade_period, start_date })
                } else {
                    Err(DecodingError::UnexpectedEvent(ev.clone()))
                }
            },
            _ => Err(DecodingError::UnexpectedEvent(ev.clone())),
        }
    }
}
/// The value a `StandardAssignmentView` element's attributes denote.
pub open spec fn standard_assignment_view_of(attrs: Seq<(Seq<char>, Seq<char>)>) -> Result<
    StandardAssignmentViewV,
    DecodingErrorV,
> {
    match req_attr(attrs, "Type"@) {
            Err(e) => Err(e),
            Ok(_type) => match req_attr(attrs, "Assignment"@) {
            Err(e) => Err(e),
            Ok(assignment) => match dec_attr(attrs, "CalValue"@) {
            Err(e) => Err(e),
            Ok(cal_value) => match date_attr(attrs, "DueDate"@) {
            Err(e) => Err(e),
            Ok(due_date) => match req_attr(attrs, "GradebookID"@) {
            Err(e) => Err(e),
            Ok(gradebook_id) => match req_attr(attrs, "Mark"@) {
            Err(e) => Err(e),
            Ok(mark) => match opt_dec_attr(attrs, "Proficiency"@) {
            Err(e) => Err(e),
            Ok(proficiency) => match dec_attr(attrs, "ProfciencyMaxValue"@) {
            Err(e) => Err(e),
            Ok(proficiency_max_value) => Ok(StandardAssignmentViewV { _type: _type, assignment: assignment, cal_value: cal_value, due_date: due_date, gradebook_id: gradebook_id, mark: mark, proficiency: proficiency, proficiency_max_value: proficiency_max_value }),
        },
        },
        },
        },
        },
        },
        },
        }
}

/// Decoding a `StandardAssignmentView` element whose start event stands at `i`.
pub open spec fn decode_standard_assignment_view(evs: Seq<EventV>, terr: Option<Seq<char>>, i: int) -> Result<
    (StandardAssignmentViewV, int),
    DecodingErrorV,
> {
    if i < 0 || i >= evs.len() {
        Err(end_err(terr))
    } else {
        match evs[i] {
            EventV::StartElement { name, attributes } => {
                if name == "StandardAssignmentView"@ {
                    match standard_assignment_view_of(attributes) {
                        Ok(v) => match leaf_close(evs, terr, i + 1, "StandardAssignmentView"@) {
                            Ok(j) => Ok((v, j)),
                            Err(e) => Err(e),
                        },
                        Err(e) => Err(e),
                    }
                } else {
                    Err(DecodingErrorV::UnexpectedEvent(evs[i]))
                }
            },
            _ => Err(DecodingErrorV::UnexpectedEvent(evs[i])),
        }
    }
}
impl StandardAssignmentView {
    /// Decodes one `StandardAssignmentView` element through its own closing tag.
    pub fn from_event(events: &EventList, i: &mut usize) -> (r: DecoderResult<StandardAssignmentView>)
        requires
            *old(i) <= events.items@.len(),
        ensures
            ({
                let s = decode_standard_assignment_view(
                    events.deep_view().items,
                    events.deep_view().error,
                    *old(i) as int,
                );
                match r {
                    Ok(v) => s matches Ok(p) && p.0 == v.deep_view() && p.1 == *final(i) as int
                        && *old(i) < *final(i) <= events.items@.len(),
                    Err(e) => s matches Err(ev) && ev == e.deep_view(),
                }
            }),
            *old(i) <= *final(i) <= events.items@.len(),
            !starts_with_tag(
                events.deep_view().items,
                *old(i) as int,
                "StandardAssignmentView"@,
            ) ==> *final(i) == *old(i),
    {
        if *i >= events.items.len() {
            return Err(end_error(events));
        }
        let ev = &events.items[*i];
        match ev {
            Event::StartElement { name, attributes } => {
                if str_eq(name.as_str(), "StandardAssignmentView") {
                    *i += 1;
                    let _type = match get_attr_owned(attributes, "Type") {
                        Ok(v) => v,
                        Err(e) => {
                            return Err(e);
                        },
                    };
                    let assignment = match get_attr_owned(attributes, "Assignment") {
                        Ok(v) => v,
                        Err(e) => {
                            return Err(e);
                        },
                    };
                    let cal_value = match get_dec_attr(attributes, "CalValue") {
                        Ok(v) => v,
                        Err(e) => {
                            return Err(e);
                        },
                    };
                    let due_date = match get_date_attr(attributes, "DueDate") {
                        Ok(v) => v,
                        Err(e) => {
                            return Err(e);
                        },
                    };
                    let gradebook_id = match get_attr_owned(attributes, "GradebookID") {
                        Ok(v) => v,
                        Err(e) => {
                            return Err(e);
                        },
                    };
                    let mark = match get_attr_owned(attributes, "Mark") {
                        Ok(v) => v,
                        Err(e) => {
                            return Err(e);
                        },
                    };
                    let proficiency = match get_opt_dec_attr(attributes, "Proficiency") {
                        Ok(v) => v,
                        Err(e) => {
                            return Err(e);
                        },
                    };
                    let proficiency_max_value = match get_dec_attr(attributes, "ProfciencyMaxValue") {
                        Ok(v) => v,
                        Err(e) => {
                            return Err(e);
                        },
                    };
                    match close_element(events, i, "StandardAssignmentView") {
                        Ok(_) => (),
                        Err(e) => {
                            return Err(e);
                        },
                    }
                    Ok(StandardAssignmentView { _type, assignment, cal_value, due_date, gradebook_id, mark, proficiency, proficiency_max_value })
                } else {
                    Err(DecodingError::UnexpectedEvent(ev.clone()))
                }
            },
            _ => Err(DecodingError::UnexpectedEvent(ev.clone())),
        }
    }
}
/// The value a `AssignmentGradeCalc` element's attributes denote.
pub open spec fn assignment_grade_calc_of(attrs: Seq<(Seq<char>, Seq<char>)>) -> Result<
    AssignmentGradeCalcV,
    DecodingErrorV,
> {
    match req_attr(attrs, "Type"@) {
            Err(e) => Err(e),
            Ok(_type) => match req_attr(attrs, "CalculatedMark"@) {
            Err(e) => Err(e),
            Ok(calculated_mark) => match dec_attr(attrs, "Points"@) {
            Err(e) => Err(e),
            Ok(points) => match dec_attr(attrs, "PointsPossible"@) {
            Err(e) => Err(e),
            Ok(points_possible) => match req_attr(attrs, "Weight"@) {
            Err(e) => Err(e),
            Ok(raw_weight) => { let weight = parse_weight_spec(raw_weight); match req_attr(attrs, "WeightedPct"@) {
            Err(e) => Err(e),
            Ok(raw_weighted_pct) => { let weighted_pct = parse_weight_spec(raw_weighted_pct); Ok(AssignmentGradeCalcV { _type: _type, calculated_mark: calculated_mark, points: points, points_possible: points_possible, weight: weight, weighted_pct: weighted_pct }) },
        } },
        },
        },
        },
        },
        }
}

/// Decoding a `AssignmentGradeCalc` element whose start event stands at `i`.
pub open spec fn decode_assignment_grade_calc(evs: Seq<EventV>, terr: Option<Seq<char>>, i: int) -> Result<
    (AssignmentGradeCalcV, int),
    DecodingErrorV,
> {
    if i < 0 || i >= evs.len() {
        Err(end_err(terr))
    } else {
        match evs[i] {
            EventV::StartElement { name, attributes } => {
                if name == "AssignmentGradeCalc"@ {
                    match assignment_grade_calc_of(attributes) {
                        Ok(v) => match leaf_close(evs, terr, i + 1, "AssignmentGradeCalc"@) {
                            Ok(j) => Ok((v, j)),
                            Err(e) => Err(e),
                        },
                        Err(e) => Err(e),
                    }
                } else {
                    Err(DecodingErrorV::UnexpectedEvent(evs[i]))
                }
            },
            _ => Err(DecodingErrorV::UnexpectedEvent(evs[i])),
        }
    }
}
impl AssignmentGradeCalc {
    /// Decodes one `AssignmentGradeCalc` element through its own closing tag.
    pub fn from_event(events: &EventList, i: &mut usize) -> (r: DecoderResult<AssignmentGradeCalc>)
        requires
            *old(i) <= events.items@.len(),
        ensures
            ({
                let s = decode_assignment_grade_calc(
                    events.deep_view().items,
                    events.deep_view().error,
                    *old(i) as int,
                );
                match r {
                    Ok(v) => s matches Ok(p) && p.0 == v.deep_view() && p.1 == *final(i) as int
                        && *old(i) < *final(i) <= events.items@.len(),
                    Err(e) => s matches Err(ev) && ev == e.deep_view(),
                }
            }),
            *old(i) <= *final(i) <= events.items@.len(),
            !starts_with_tag(
                events.deep_view().items,
                *old(i) as int,
                "AssignmentGradeCalc"@,
            ) ==> *final(i) == *old(i),
    {
        if *i >= events.items.len() {
            return Err(end_error(events));
        }
        let ev = &events.items[*i];
        match ev {
            Event::StartElement { name, attributes } => {
                if str_eq(name.as_str(), "AssignmentGradeCalc") {
                    *i += 1;
                    let _type = match get_attr_owned(attributes, "Type") {
                        Ok(v) => v,
                        Err(e) => {
                            return Err(e);
                        },
                    };
                    let calculated_mark = match get_attr_owned(attributes, "CalculatedMark") {
                        Ok(v) => v,
                        Err(e) => {
                            return Err(e);
                        },
                    };
                    let points = match get_dec_attr(attributes, "Points") {
                        Ok(v) => v,
                        Err(e) => {
                            return Err(e);
                        },
                    };
                    let points_possible = match get_dec_attr(attributes, "PointsPossible") {
                        Ok(v) => v,
                        Err(e) => {
                            return Err(e);
                        },
                    };
                    let weight = match get_attr(attributes, "Weight") {
                        Some(v) => AssignmentGradeCalcWeight::parse(v.as_str()),
                        None => {
                            return Err(DecodingError::MissingAttribute("Weight".to_owned()));
                        },
                    };
                    let weighted_pct = match get_attr(attributes, "WeightedPct") {
                        Some(v) => AssignmentGradeCalcWeight::parse(v.as_str()),
                        None => {
                            return Err(DecodingError::MissingAttribute("WeightedPct".to_owned()));
                        },
                    };
                    match close_element(events, i, "AssignmentGradeCalc") {
                        Ok(_) => (),
                        Err(e) => {
                            return Err(e);
                        },
                    }
                    Ok(AssignmentGradeCalc { _type, calculated_mark, points, points_possible, weight, weighted_pct })
                } else {
                    Err(DecodingError::UnexpectedEvent(ev.clone()))
                }
            },
            _ => Err(DecodingError::UnexpectedEvent(ev.clone())),
        }
    }
}
/// The value a `StandardScreenAssignment` element's attributes denote.
pub open spec fn standard_screen_assignment_of(attrs: Seq<(Seq<char>, Seq<char>)>) -> Result<
    StandardScreenAssignmentV,
    DecodingErrorV,
> {
    match req_attr(attrs, "Type"@) {
            Err(e) => Err(e),
            Ok(_type) => match req_attr(attrs, "Assignment"@) {
            Err(e) => Err(e),
            Ok(assignment) => match date_attr(attrs, "DueDate"@) {
            Err(e) => Err(e),
            Ok(due_date) => match req_attr(attrs, "Mark"@) {
            Err(e) => Err(e),
            Ok(mark) => match opt_dec_attr(attrs, "Proficiency"@) {
            Err(e) => Err(e),
            Ok(proficiency) => match dec_attr(attrs, "ProfciencyMaxValue"@) {
            Err(e) => Err(e),
            Ok(proficiency_max_value) => Ok(StandardScreenAssignmentV { _type: _type, assignment: assignment, due_date: due_date, mark: mark, proficiency: proficiency, proficiency_max_value: proficiency_max_value }),
        },
        },
        },
        },
        },
        }
}

/// Decoding a `StandardScreenAssignment` element whose start event stands at `i`.
pub open spec fn decode_standard_screen_assignment(evs: Seq<EventV>, terr: Option<Seq<char>>, i: int) -> Result<
    (StandardScreenAssignmentV, int),
    DecodingErrorV,
> {
    if i < 0 || i >= evs.len() {
        Err(end_err(terr))
    } else {
        match evs[i] {
            EventV::StartElement { name, attributes } => {
                if name == "StandardScreenAssignment"@ {
                    match standard_screen_assignment_of(attributes) {
                        Ok(v) => match leaf_close(evs, terr, i + 1, "StandardScreenAssignment"@) {
                            Ok(j) => Ok((v, j)),
                            Err(e) => Err(e),
                        },
                        Err(e) => Err(e),
                    }
                } else {
                    Err(DecodingErrorV::UnexpectedEvent(evs[i]))
                }
            },
            _ => Err(DecodingErrorV::UnexpectedEvent(evs[i])),
        }
    }
}
impl StandardScreenAssignment {
    /// Decodes one `StandardScreenAssignment` element through its own closing tag.
    pub fn from_event(events: &EventList, i: &mut usize) -> (r: DecoderResult<StandardScreenAssignment>)
        requires
            *old(i) <= events.items@.len(),
        ensures
            ({
                let s = decode_standard_screen_assignment(
                    events.deep_view().items,
                    events.deep_view().error,
                    *old(i) as int,
                );
                match r {
                    Ok(v) => s matches Ok(p) && p.0 == v.deep_view() && p.1 == *final(i) as int
                        && *old(i) < *final(i) <= events.items@.len(),
                    Err(e) => s matches Err(ev) && ev == e.deep_view(),
                }
            }),
            *old(i) <= *final(i) <= events.items@.len(),
            !starts_with_tag(
                events.deep_view().items,
                *old(i) as int,
                "StandardScreenAssignment"@,
            ) ==> *final(i) == *old(i),
    {
        if *i >= events.items.len() {
            return Err(end_error(events));
        }
        let ev = &events.items[*i];
        match ev {
            Event::StartElement { name, attributes } => {
                if str_eq(name.as_str(), "StandardScreenAssignment") {
                    *i += 1;
                    let _type = match get_attr_owned(attributes, "Type") {
                        Ok(v) => v,
                        Err(e) => {
                            return Err(e);
                        },
                    };
                    let assignment = match get_attr_owned(attributes, "Assignment") {
                        Ok(v) => v,
                        Err(e) => {
                            return Err(e);
                        },
                    };
                    let due_date = match get_date_attr(attributes, "DueDate") {
                        Ok(v) => v,
                        Err(e) => {
                            return Err(e);
                        },
                    };
                    let mark = match get_attr_owned(attributes, "Mark") {
                        Ok(v) => v,
                        Err(e) => {
                            return Err(e);
                        },
                    };
                    let proficiency = match get_opt_dec_attr(attributes, "Proficiency") {
                        Ok(v) => v,
                        Err(e) => {
                            return Err(e);
                        },
                    };
                    let proficiency_max_value = match get_dec_attr(attributes, "ProfciencyMaxValue") {
                        Ok(v) => v,
                        Err(e) => {
                            return Err(e);
                        },
                    };
                    match close_element(events, i, "StandardScreenAssignment") {
                        Ok(_) => (),
                        Err(e) => {
                            return Err(e);
                        },
                    }
                    Ok(StandardScreenAssignment { _type, assignment, due_date, mark, proficiency, proficiency_max_value })
                } else {
                    Err(DecodingError::UnexpectedEvent(ev.clone()))
                }
            },
            _ => Err(DecodingError::UnexpectedEvent(ev.clone())),
        }
    }
}
} // verus!

verus! {
/// The children collected between a `Standard` element's start tag and its
/// own closing tag; wrapper tags around the child lists are passed over.
pub open spec fn standard_items(
    evs: Seq<EventV>,
    terr: Option<Seq<char>>,
    i: int,
    standard_screen_assignments: Seq<StandardScreenAssignmentV>,
) -> Result<(Seq<StandardScreenAssignmentV>, int), DecodingErrorV>
    decreases evs.len() - i,
{
    if i < 0 || i >= evs.len() {
        Err(end_err(terr))
    } else {
        match evs[i] {
            EventV::StartElement { name, attributes } => {
                if name == "StandardScreenAssignment"@ {
                    match decode_standard_screen_assignment(evs, terr, i) {
                        Ok(p) => if i < p.1 <= evs.len() {
                            standard_items(evs, terr, p.1, standard_screen_assignments.push(p.0))
                        } else {
                            Err(end_err(terr))
                        },
                        Err(e) => Err(e),
                    }
                } else if name == "StandardScreenAssignments"@ {
                    standard_items(evs, terr, i + 1, standard_screen_assignments)
                } else {
                    Err(DecodingErrorV::UnexpectedEvent(evs[i]))
                }
            },
            EventV::EndElement { name } => {
                if name == "Standard"@ {
                    Ok((standard_screen_assignments, i + 1))
                } else if name == "StandardScreenAssignments"@ {
                    standard_items(evs, terr, i + 1, standard_screen_assignments)
                } else {
                    Err(DecodingErrorV::UnexpectedEvent(evs[i]))
                }
            },
            EventV::Whitespace(_) => standard_items(evs, terr, i + 1, standard_screen_assignments),
            _ => Err(DecodingErrorV::UnexpectedEvent(evs[i])),
        }
    }
}
/// Decoding a `Standard` element whose start event stands at `i`.
pub open spec fn decode_standard(evs: Seq<EventV>, terr: Option<Seq<char>>, i: int) -> Result<
    (StandardV, int),
    DecodingErrorV,
> {
    if i < 0 || i >= evs.len() {
        Err(end_err(terr))
    } else {
        match evs[i] {
            EventV::StartElement { name, attributes } => if name == "Standard"@ {
                match req_attr(attributes, "Subject"@) {
                Err(e) => Err(e),
                Ok(subject) => match req_attr(attributes, "Mark"@) {
                Err(e) => Err(e),
                Ok(mark) => match req_attr(attributes, "Description"@) {
                Err(e) => Err(e),
                Ok(description) => match opt_dec_attr(attributes, "Proficiency"@) {
                Err(e) => Err(e),
                Ok(proficiency) => match dec_attr(attributes, "ProfciencyMaxValue"@) {
                Err(e) => Err(e),
                Ok(proficiency_max_value) => match standard_items(evs, terr, i + 1, Seq::empty()) {
                Err(e) => Err(e),
                Ok(p) => Ok((StandardV { subject: subject, mark: mark, description: description, proficiency: proficiency, proficiency_max_value: proficiency_max_value, standard_screen_assignments: p.0 }, p.1)),
            },
            },
            },
            },
            },
            }
            } else {
                Err(DecodingErrorV::UnexpectedEvent(evs[i]))
            },
            _ => Err(DecodingErrorV::UnexpectedEvent(evs[i])),
        }
    }
}
impl Standard {
    /// Decodes one `Standard` element and exactly the markup subtree below
    /// it, leaving the cursor on the first event after what it consumed.
    #[verifier::loop_isolation(false)]
    pub fn from_event(events: &EventList, i: &mut usize) -> (r: DecoderResult<Standard>)
        requires
            *old(i) <= events.items@.len(),
        ensures
            ({
                let s = decode_standard(
                    events.deep_view().items,
                    events.deep_view().error,
                    *old(i) as int,
                );
                match r {
                    Ok(v) => s matches Ok(p) && p.0 == v.deep_view() && p.1 == *final(i) as int
                        && *old(i) < *final(i) <= events.items@.len(),
                    Err(e) => s matches Err(ev) && ev == e.deep_view(),
                }
            }),
            *old(i) <= *final(i) <= events.items@.len(),
            !starts_with_tag(
                events.deep_view().items,
                *old(i) as int,
                "Standard"@,
            ) ==> *final(i) == *old(i),
    {
        let ghost evs = events.deep_view().items;
        let ghost terr = events.deep_view().error;
        let n = events.items.len();
        if *i >= n {
            return Err(end_error(events));
        }
        let ev = &events.items[*i];
        match ev {
            Event::StartElement { name, attributes } => {
                if str_eq(name.as_str(), "Standard") {
                    let subject = match get_attr_owned(attributes, "Subject") {
                        Ok(v) => v,
                        Err(e) => {
                            return Err(e);
                        },
                    };
                    let mark = match get_attr_owned(attributes, "Mark") {
                        Ok(v) => v,
                        Err(e) => {
                            return Err(e);
                        },
                    };
                    let description = match get_attr_owned(attributes, "Description") {
                        Ok(v) => v,
                        Err(e) => {
                            return Err(e);
                        },
                    };
                    let proficiency = match get_opt_dec_attr(attributes, "Proficiency") {
                        Ok(v) => v,
                        Err(e) => {
                            return Err(e);
                        },
                    };
                    let proficiency_max_value = match get_dec_attr(attributes, "ProfciencyMaxValue") {
                        Ok(v) => v,
                        Err(e) => {
                            return Err(e);
                        },
                    };
                    *i += 1;
                    let mut standard_screen_assignments: Vec<StandardScreenAssignment> = Vec::new();
                    proof {
                        assert(standard_screen_assignments.deep_view() =~= Seq::<
                            StandardScreenAssignmentV,
                        >::empty());
                    }
                    let ghost i1 = *i as int;
                    loop
                        invariant
                            i1 <= *i as int,
                            *i <= n,
                            standard_items(evs, terr, i1, Seq::empty()) == standard_items(
                                evs,
                                terr,
                                *i as int,
                                standard_screen_assignments.deep_view(),
                            ),
                        decreases n - *i,
                    {
                        if *i >= n {
                            return Err(end_error(events));
                        }
                        let ev2 = &events.items[*i];
                        match ev2 {
                            Event::StartElement { name: name2, .. } => {
                                if str_eq(name2.as_str(), "StandardScreenAssignment") {
                                    let ghost pre_dv = standard_screen_assignments.deep_view();
                                    match StandardScreenAssignment::from_event(events, i) {
                                        Ok(v) => {
                                            standard_screen_assignments.push(v);
                                            proof {
                                                assert(standard_screen_assignments.deep_view() =~= pre_dv.push(
                                                    v.deep_view(),
                                                ));
                                            }
                                        },
                                        Err(e) => {
                                            return Err(e);
                                        },
                                    }
                                } else if str_eq(name2.as_str(), "StandardScreenAssignments") {
                                    *i += 1;
                                } else {
                                    return Err(DecodingError::UnexpectedEvent(ev2.clone()));
                                }
                            },
                            Event::EndElement { name: name2 } => {
                                if str_eq(name2.as_str(), "Standard") {
                                    *i += 1;

                                    return Ok(Standard { subject, mark, description, proficiency, proficiency_max_value, standard_screen_assignments });
                                } else if str_eq(name2.as_str(), "StandardScreenAssignments") {
                                    *i += 1;
                                } else {
                                    return Err(DecodingError::UnexpectedEvent(ev2.clone()));
                                }
                            },
                            Event::Whitespace(_) => {
                                *i += 1;
                            },
                            _ => {
                                return Err(DecodingError::UnexpectedEvent(ev2.clone()));
                            },
                        }
                    }
                } else {
                    Err(DecodingError::UnexpectedEvent(ev.clone()))
                }
            },
            _ => Err(DecodingError::UnexpectedEvent(ev.clone())),
        }
    }
}
/// The children collected between a `Assignment` element's start tag and its
/// own closing tag; wrapper tags around the child lists are passed over.
pub open spec fn assignment_items(
    evs: Seq<EventV>,
    terr: Option<Seq<char>>,
    i: int,
    standards: Seq<StandardV>,
) -> Result<(Seq<StandardV>, int), DecodingErrorV>
    decreases evs.len() - i,
{
    if i < 0 || i >= evs.len() {
        Err(end_err(terr))
    } else {
        match evs[i] {
            EventV::StartElement { name, attributes } => {
                if name == "Standard"@ {
                    match decode_standard(evs, terr, i) {
                        Ok(p) => if i < p.1 <= evs.len() {
                            assignment_items(evs, terr, p.1, standards.push(p.0))
                        } else {
                            Err(end_err(terr))
                        },
                        Err(e) => Err(e),
                    }
                } else if name == "Standards"@ {
                    assignment_items(evs, terr, i + 1, standards)
                } else if name == "Resources"@ {
                    assignment_items(evs, terr, i + 1, standards)
                } else {
                    Err(DecodingErrorV::UnexpectedEvent(evs[i]))
                }
            },
            EventV::EndElement { name } => {
                if name == "Assignment"@ {
                    Ok((standards, i + 1))
                } else if name == "Standards"@ || name == "Resources"@ {
                    assignment_items(evs, terr, i + 1, standards)
                } else {
                    Err(DecodingErrorV::UnexpectedEvent(evs[i]))
                }
            },
            EventV::Whitespace(_) => assignment_items(evs, terr, i + 1, standards),
            _ => Err(DecodingErrorV::UnexpectedEvent(evs[i])),
        }
    }
}
/// Decoding a `Assignment` element whose start event stands at `i`.
pub open spec fn decode_assignment(evs: Seq<EventV>, terr: Option<Seq<char>>, i: int) -> Result<
    (AssignmentV, int),
    DecodingErrorV,
> {
    if i < 0 || i >= evs.len() {
        Err(end_err(terr))
    } else {
        match evs[i] {
            EventV::StartElement { name, attributes } => if name == "Assignment"@ {
                match req_attr(attributes, "Type"@) {
                Err(e) => Err(e),
                Ok(_type) => match req_attr(attributes, "GradebookID"@) {
                Err(e) => Err(e),
                Ok(gradebook_id) => match req_attr(attributes, "Measure"@) {
                Err(e) => Err(e),
                Ok(measure) => match date_attr(attributes, "Date"@) {
                Err(e) => Err(e),
                Ok(date) => match date_attr(attributes, "DueDate"@) {
                Err(e) => Err(e),
                Ok(due_date) => match req_attr(attributes, "Score"@) {
                Err(e) => Err(e),
                Ok(raw_score) => {
                    let score = parse_score_spec(raw_score);
                    match req_attr(attributes, "ScoreType"@) {
                Err(e) => Err(e),
                Ok(score_type) => match req_attr(attributes, "Points"@) {
                Err(e) => Err(e),
                Ok(raw_points) => {
                    let points = parse_points_spec(raw_points);
                    match req_attr(attributes, "Notes"@) {
                Err(e) => Err(e),
                Ok(notes) => match req_attr(attributes, "TeacherID"@) {
                Err(e) => Err(e),
                Ok(teacher_id) => match req_attr(attributes, "StudentID"@) {
                Err(e) => Err(e),
                Ok(student_id) => match bool_attr(attributes, "HasDropBox"@) {
                Err(e) => Err(e),
                Ok(has_drop_box) => match date_attr(attributes, "DropStartDate"@) {
                Err(e) => Err(e),
                Ok(drop_start_date) => match date_attr(attributes, "DropEndDate"@) {
                Err(e) => Err(e),
                Ok(drop_end_date) => match assignment_items(evs, terr, i + 1, Seq::empty()) {
                Err(e) => Err(e),
                Ok(p) => Ok((AssignmentV { _type: _type, gradebook_id: gradebook_id, measure: measure, date: date, due_date: due_date, score: score, score_type: score_type, points: points, notes: notes, teacher_id: teacher_id, student_id: student_id, has_drop_box: has_drop_box, drop_start_date: drop_start_date, drop_end_date: drop_end_date, standards: p.0 }, p.1)),
            },
            },
            },
            },
            },
            },
            }
                },
            },
            }
                },
            },
            },
            },
            },
            },
            }
            } else {
                Err(DecodingErrorV::UnexpectedEvent(evs[i]))
            },
            _ => Err(DecodingErrorV::UnexpectedEvent(evs[i])),
        }
    }
}
impl Assignment {
    /// Decodes one `Assignment` element and exactly the markup subtree below
    /// it, leaving the cursor on the first event after what it consumed.
    #[verifier::loop_isolation(false)]
    pub fn from_event(events: &EventList, i: &mut usize) -> (r: DecoderResult<Assignment>)
        requires
            *old(i) <= events.items@.len(),
        ensures
            ({
                let s = decode_assignment(
                    events.deep_view().items,
                    events.deep_view().error,
                    *old(i) as int,
                );
                match r {
                    Ok(v) => s matches Ok(p) && p.0 == v.deep_view() && p.1 == *final(i) as int
                        && *old(i) < *final(i) <= events.items@.len(),
                    Err(e) => s matches Err(ev) && ev == e.deep_view(),
                }
            }),
            *old(i) <= *final(i) <= events.items@.len(),
            !starts_with_tag(
                events.deep_view().items,
                *old(i) as int,
                "Assignment"@,
            ) ==> *final(i) == *old(i),
    {
        let ghost evs = events.deep_view().items;
        let ghost terr = events.deep_view().error;
        let n = events.items.len();
        if *i >= n {
            return Err(end_error(events));
        }
        let ev = &events.items[*i];
        match ev {
            Event::StartElement { name, attributes } => {
                if str_eq(name.as_str(), "Assignment") {
                    let _type = match get_attr_owned(attributes, "Type") {
                        Ok(v) => v,
                        Err(e) => {
                            return Err(e);
                        },
                    };
                    let gradebook_id = match get_attr_owned(attributes, "GradebookID") {
                        Ok(v) => v,
                        Err(e) => {
                            return Err(e);
                        },
                    };
                    let measure = match get_attr_owned(attributes, "Measure") {
                        Ok(v) => v,
                        Err(e) => {
                            return Err(e);
                        },
                    };
                    let date = match get_date_attr(attributes, "Date") {
                        Ok(v) => v,
                        Err(e) => {
                            return Err(e);
                        },
                    };
                    let due_date = match get_date_attr(attributes, "DueDate") {
                        Ok(v) => v,
                        Err(e) => {
                            return Err(e);
                        },
                    };
                    let score = match get_attr(attributes, "Score") {
                        Some(v) => AssignmentScore::parse(v.as_str()),
                        None => {
                            return Err(DecodingError::MissingAttribute("Score".to_owned()));
                        },
                    };
                    let score_type = match get_attr_owned(attributes, "ScoreType") {
                        Ok(v) => v,
                        Err(e) => {
                            return Err(e);
                        },
                    };
                    let points = match get_attr(attributes, "Points") {
                        Some(v) => AssignmentPoints::parse(v.as_str()),
                        None => {
                            return Err(DecodingError::MissingAttribute("Points".to_owned()));
                        },
                    };
                    let notes = match get_attr_owned(attributes, "Notes") {
                        Ok(v) => v,
                        Err(e) => {
                            return Err(e);
                        },
                    };
                    let teacher_id = match get_attr_owned(attributes, "TeacherID") {
                        Ok(v) => v,
                        Err(e) => {
                            return Err(e);
                        },
                    };
                    let student_id = match get_attr_owned(attributes, "StudentID") {
                        Ok(v) => v,
                        Err(e) => {
                            return Err(e);
                        },
                    };
                    let has_drop_box = match get_bool_attr(attributes, "HasDropBox") {
                        Ok(v) => v,
                        Err(e) => {
                            return Err(e);
                        },
                    };
                    let drop_start_date = match get_date_attr(attributes, "DropStartDate") {
                        Ok(v) => v,
                        Err(e) => {
                            return Err(e);
                        },
                    };
                    let drop_end_date = match get_date_attr(attributes, "DropEndDate") {
                        Ok(v) => v,
                        Err(e) => {
                            return Err(e);
                        },
                    };
                    *i += 1;
                    let mut standards: Vec<Standard> = Vec::new();
                    proof {
                        assert(standards.deep_view() =~= Seq::<StandardV>::empty());
                    }
                    let ghost i1 = *i as int;
                    loop
                        invariant
                            i1 <= *i as int,
                            *i <= n,
                            assignment_items(evs, terr, i1, Seq::empty()) == assignment_items(
                                evs,
                                terr,
                                *i as int,
                                standards.deep_view(),
                            ),
                        decreases n - *i,
                    {
                        if *i >= n {
                            return Err(end_error(events));
                        }
                        let ev2 = &events.items[*i];
                        match ev2 {
                            Event::StartElement { name: name2, .. } => {
                                if str_eq(name2.as_str(), "Standard") {
                                    let ghost pre_dv = standards.deep_view();
                                    match Standard::from_event(events, i) {
                                        Ok(v) => {
                                            standards.push(v);
                                            proof {
                                                assert(standards.deep_view() =~= pre_dv.push(
                                                    v.deep_view(),
                                                ));
                                            }
                                        },
                                        Err(e) => {
                                            return Err(e);
                                        },
                                    }
                                } else if str_eq(name2.as_str(), "Standards") {
                                    *i += 1;
                                } else if str_eq(name2.as_str(), "Resources") {
                                    *i += 1;
                                } else {
                                    return Err(DecodingError::UnexpectedEvent(ev2.clone()));
                                }
                            },
                            Event::EndElement { name: name2 } => {
                                if str_eq(name2.as_str(), "Assignment") {
                                    *i += 1;

                                    return Ok(Assignment { _type, gradebook_id, measure, date, due_date, score, score_type, points, notes, teacher_id, student_id, has_drop_box, drop_start_date, drop_end_date, standards });
                                } else if str_eq(name2.as_str(), "Standards") || str_eq(name2.as_str(), "Resources") {
                                    *i += 1;
                                } else {
                                    return Err(DecodingError::UnexpectedEvent(ev2.clone()));
                                }
                            },
                            Event::Whitespace(_) => {
                                *i += 1;
                            },
                            _ => {
                                return Err(DecodingError::UnexpectedEvent(ev2.clone()));
                            },
                        }
                    }
                } else {
                    Err(DecodingError::UnexpectedEvent(ev.clone()))
                }
            },
            _ => Err(DecodingError::UnexpectedEvent(ev.clone())),
        }
    }
}
/// The children collected between a `StandardView` element's start tag and its
/// own closing tag; wrapper tags around the child lists are passed over.
pub open spec fn standard_view_items(
    evs: Seq<EventV>,
    terr: Option<Seq<char>>,
    i: int,
    standard_assignment_views: Seq<StandardAssignmentViewV>,
) -> Result<(Seq<StandardAssignmentViewV>, int), DecodingErrorV>
    decreases evs.len() - i,
{
    if i < 0 || i >= evs.len() {
        Err(end_err(terr))
    } else {
        match evs[i] {
            EventV::StartElement { name, attributes } => {
                if name == "StandardAssignmentView"@ {
                    match decode_standard_assignment_view(evs, terr, i) {
                        Ok(p) => if i < p.1 <= evs.len() {
                            standard_view_items(evs, terr, p.1, standard_assignment_views.push(p.0))
                        } else {
                            Err(end_err(terr))
                        },
                        Err(e) => Err(e),
                    }
                } else if name == "StandardAssignmentViews"@ {
                    standard_view_items(evs, terr, i + 1, standard_assignment_views)
                } else {
                    Err(DecodingErrorV::UnexpectedEvent(evs[i]))
                }
            },
            EventV::EndElement { name } => {
                if name == "StandardView"@ {
                    Ok((standard_assignment_views, i + 1))
                } else if name == "StandardAssignmentViews"@ {
                    standard_view_items(evs, terr, i + 1, standard_assignment_views)
                } else {
                    Err(DecodingErrorV::UnexpectedEvent(evs[i]))
                }
            },
            EventV::Whitespace(_) => standard_view_items(evs, terr, i + 1, standard_assignment_views),
            _ => Err(DecodingErrorV::UnexpectedEvent(evs[i])),
        }
    }
}
/// Decoding a `StandardView` element whose start event stands at `i`.
pub open spec fn decode_standard_view(evs: Seq<EventV>, terr: Option<Seq<char>>, i: int) -> Result<
    (StandardViewV, int),
    DecodingErrorV,
> {
    if i < 0 || i >= evs.len() {
        Err(end_err(terr))
    } else {
        match evs[i] {
            EventV::StartElement { name, attributes } => if name == "StandardView"@ {
                match dec_attr(attributes, "CalValue"@) {
                Err(e) => Err(e),
                Ok(cal_value) => match req_attr(attributes, "Description"@) {
                Err(e) => Err(e),
                Ok(description) => match req_attr(attributes, "Mark"@) {
                Err(e) => Err(e),
                Ok(mark) => match opt_dec_attr(attributes, "Proficiency"@) {
                Err(e) => Err(e),
                Ok(proficiency) => match dec_attr(attributes, "ProfciencyMaxValue"@) {
                Err(e) => Err(e),
                Ok(proficiency_max_value) => match standard_view_items(evs, terr, i + 1, Seq::empty()) {
                Err(e) => Err(e),
                Ok(p) => match req_attr(attributes, "Subject"@) {
                Err(e) => Err(e),
                Ok(subject) => match i8_attr(attributes, "SubjectID"@) {
                Err(e) => Err(e),
                Ok(subject_id) => Ok((StandardViewV { cal_value: cal_value, description: description, mark: mark, proficiency: proficiency, proficiency_max_value: proficiency_max_value, standard_assignment_views: p.0, subject: subject, subject_id: subject_id }, p.1)),
            },
            },
            },
            },
            },
            },
            },
            }
            } else {
                Err(DecodingErrorV::UnexpectedEvent(evs[i]))
            },
            _ => Err(DecodingErrorV::UnexpectedEvent(evs[i])),
        }
    }
}
impl StandardView {
    /// Decodes one `StandardView` element and exactly the markup subtree below
    /// it, leaving the cursor on the first event after what it consumed.
    #[verifier::loop_isolation(false)]
    pub fn from_event(events: &EventList, i: &mut usize) -> (r: DecoderResult<StandardView>)
        requires
            *old(i) <= events.items@.len(),
        ensures
            ({
                let s = decode_standard_view(
                    events.deep_view().items,
                    events.deep_view().error,
                    *old(i) as int,
                );
                match r {
                    Ok(v) => s matches Ok(p) && p.0 == v.deep_view() && p.1 == *final(i) as int
                        && *old(i) < *final(i) <= events.items@.len(),
                    Err(e) => s matches Err(ev) && ev == e.deep_view(),
                }
            }),
            *old(i) <= *final(i) <= events.items@.len(),
            !starts_with_tag(
                events.deep_view().items,
                *old(i) as int,
                "StandardView"@,
            ) ==> *final(i) == *old(i),
    {
        let ghost evs = events.deep_view().items;
        let ghost terr = events.deep_view().error;
        let n = events.items.len();
        if *i >= n {
            return Err(end_error(events));
        }
        let ev = &events.items[*i];
        match ev {
            Event::StartElement { name, attributes } => {
                if str_eq(name.as_str(), "StandardView") {
                    let cal_value = match get_dec_attr(attributes, "CalValue") {
                        Ok(v) => v,
                        Err(e) => {
                            return Err(e);
                        },
                    };
                    let description = match get_attr_owned(attributes, "Description") {
                        Ok(v) => v,
                        Err(e) => {
                            return Err(e);
                        },
                    };
                    let mark = match get_attr_owned(attributes, "Mark") {
                        Ok(v) => v,
                        Err(e) => {
                            return Err(e);
                        },
                    };
                    let proficiency = match get_opt_dec_attr(attributes, "Proficiency") {
                        Ok(v) => v,
                        Err(e) => {
                            return Err(e);
                        },
                    };
                    let proficiency_max_value = match get_dec_attr(attributes, "ProfciencyMaxValue") {
                        Ok(v) => v,
                        Err(e) => {
                            return Err(e);
                        },
                    };
                    *i += 1;
                    let mut standard_assignment_views: Vec<StandardAssignmentView> = Vec::new();
                    proof {
                        assert(standard_assignment_views.deep_view() =~= Seq::<
                            StandardAssignmentViewV,
                        >::empty());
                    }
                    let ghost i1 = *i as int;
                    loop
                        invariant
                            i1 <= *i as int,
                            *i <= n,
                            standard_view_items(evs, terr, i1, Seq::empty()) == standard_view_items(
                                evs,
                                terr,
                                *i as int,
                                standard_assignment_views.deep_view(),
                            ),
                        decreases n - *i,
                    {
                        if *i >= n {
                            return Err(end_error(events));
                        }
                        let ev2 = &events.items[*i];
                        match ev2 {
                            Event::StartElement { name: name2, .. } => {
                                if str_eq(name2.as_str(), "StandardAssignmentView") {
                                    let ghost pre_dv = standard_assignment_views.deep_view();
                                    match StandardAssignmentView::from_event(events, i) {
                                        Ok(v) => {
                                            standard_assignment_views.push(v);
                                            proof {
                                                assert(standard_assignment_views.deep_view() =~= pre_dv.push(
                                                    v.deep_view(),
                                                ));
                                            }
                                        },
                                        Err(e) => {
                                            return Err(e);
                                        },
                                    }
                                } else if str_eq(name2.as_str(), "StandardAssignmentViews") {
                                    *i += 1;
                                } else {
                                    return Err(DecodingError::UnexpectedEvent(ev2.clone()));
                                }
                            },
                            Event::EndElement { name: name2 } => {
                                if str_eq(name2.as_str(), "StandardView") {
                                    *i += 1;
                                    let subject = match get_attr_owned(attributes, "Subject") {
                                        Ok(v) => v,
                                        Err(e) => {
                                            return Err(e);
                                        },
                                    };
                                    let subject_id = match get_i8_attr(attributes, "SubjectID") {
                                        Ok(v) => v,
                                        Err(e) => {
                                            return Err(e);
                                        },
                                    };
                                    return Ok(StandardView { cal_value, description, mark, proficiency, proficiency_max_value, standard_assignment_views, subject, subject_id });
                                } else if str_eq(name2.as_str(), "StandardAssignmentViews") {
                                    *i += 1;
                                } else {
                                    return Err(DecodingError::UnexpectedEvent(ev2.clone()));
                                }
                            },
                            Event::Whitespace(_) => {
                                *i += 1;
                            },
                            _ => {
                                return Err(DecodingError::UnexpectedEvent(ev2.clone()));
                            },
                        }
                    }
                } else {
                    Err(DecodingError::UnexpectedEvent(ev.clone()))
                }
            },
            _ => Err(DecodingError::UnexpectedEvent(ev.clone())),
        }
    }
}
/// The children collected between a `Mark` element's start tag and its
/// own closing tag; wrapper tags around the child lists are passed over.
pub open spec fn mark_items(
    evs: Seq<EventV>,
    terr: Option<Seq<char>>,
    i: int,
    assignments: Seq<AssignmentV>, grade_calculation_summary: Seq<AssignmentGradeCalcV>, standard_views: Seq<StandardViewV>,
) -> Result<((Seq<AssignmentV>, Seq<AssignmentGradeCalcV>, Seq<StandardViewV>), int), DecodingErrorV>
    decreases evs.len() - i,
{
    if i < 0 || i >= evs.len() {
        Err(end_err(terr))
    } else {
        match evs[i] {
            EventV::StartElement { name, attributes } => {
                if name == "Assignment"@ {
                    match decode_assignment(evs, terr, i) {
                        Ok(p) => if i < p.1 <= evs.len() {
                            mark_items(evs, terr, p.1, assignments.push(p.0), grade_calculation_summary, standard_views)
                        } else {
                            Err(end_err(terr))
                        },
                        Err(e) => Err(e),
                    }
                } else if name == "AssignmentGradeCalc"@ {
                    match decode_assignment_grade_calc(evs, terr, i) {
                        Ok(p) => if i < p.1 <= evs.len() {
                            mark_items(evs, terr, p.1, assignments, grade_calculation_summary.push(p.0), standard_views)
                        } else {
                            Err(end_err(terr))
                        },
                        Err(e) => Err(e),
                    }
                } else if name == "StandardView"@ {
                    match decode_standard_view(evs, terr, i) {
                        Ok(p) => if i < p.1 <= evs.len() {
                            mark_items(evs, terr, p.1, assignments, grade_calculation_summary, standard_views.push(p.0))
                        } else {
                            Err(end_err(terr))
                        },
                        Err(e) => Err(e),
                    }
                } else if name == "Assignments"@ {
                    mark_items(evs, terr, i + 1, assignments, grade_calculation_summary, standard_views)
                } else if name == "GradeCalculationSummary"@ {
                    mark_items(evs, terr, i + 1, assignments, grade_calculation_summary, standard_views)
                } else if name == "StandardViews"@ {
                    mark_items(evs, terr, i + 1, assignments, grade_calculation_summary, standard_views)
                } else {
                    Err(DecodingErrorV::UnexpectedEvent(evs[i]))
                }
            },
            EventV::EndElement { name } => {
                if name == "Mark"@ {
                    Ok(((assignments, grade_calculation_summary, standard_views), i + 1))
                } else if name == "Assignments"@ || name == "GradeCalculationSummary"@ || name == "StandardViews"@ {
                    mark_items(evs, terr, i + 1, assignments, grade_calculation_summary, standard_views)
                } else {
                    Err(DecodingErrorV::UnexpectedEvent(evs[i]))
                }
            },
            EventV::Whitespace(_) => mark_items(evs, terr, i + 1, assignments, grade_calculation_summary, standard_views),
            _ => Err(DecodingErrorV::UnexpectedEvent(evs[i])),
        }
    }
}
/// Decoding a `Mark` element whose start event stands at `i`.
pub open spec fn decode_mark(evs: Seq<EventV>, terr: Option<Seq<char>>, i: int) -> Result<
    (MarkV, int),
    DecodingErrorV,
> {
    if i < 0 || i >= evs.len() {
        Err(end_err(terr))
    } else {
        match evs[i] {
            EventV::StartElement { name, attributes } => if name == "Mark"@ {
                match mark_items(evs, terr, i + 1, Seq::empty(), Seq::empty(), Seq::empty()) {
                Err(e) => Err(e),
                Ok(p) => match dec_attr(attributes, "CalculatedScoreRaw"@) {
                Err(e) => Err(e),
                Ok(calculated_score_raw) => match req_attr(attributes, "CalculatedScoreString"@) {
                Err(e) => Err(e),
                Ok(calculated_score_string) => match req_attr(attributes, "MarkName"@) {
                Err(e) => Err(e),
                Ok(mark_name) => Ok((MarkV { assignments: p.0.0, calculated_score_raw: calculated_score_raw, calculated_score_string: calculated_score_string, grade_calculation_summary: p.0.1, mark_name: mark_name, standard_views: p.0.2 }, p.1)),
            },
            },
            },
            }
            } else {
                Err(DecodingErrorV::UnexpectedEvent(evs[i]))
            },
            _ => Err(DecodingErrorV::UnexpectedEvent(evs[i])),
        }
    }
}
impl Mark {
    /// Decodes one `Mark` element and exactly the markup subtree below
    /// it, leaving the cursor on the first event after what it consumed.
    #[verifier::loop_isolation(false)]
    pub fn from_event(events: &EventList, i: &mut usize) -> (r: DecoderResult<Mark>)
        requires
            *old(i) <= events.items@.len(),
        ensures
            ({
                let s = decode_mark(
                    events.deep_view().items,
                    events.deep_view().error,
                    *old(i) as int,
                );
                match r {
                    Ok(v) => s matches Ok(p) && p.0 == v.deep_view() && p.1 == *final(i) as int
                        && *old(i) < *final(i) <= events.items@.len(),
                    Err(e) => s matches Err(ev) && ev == e.deep_view(),
                }
            }),
            *old(i) <= *final(i) <= events.items@.len(),
            !starts_with_tag(
                events.deep_view().items,
                *old(i) as int,
                "Mark"@,
            ) ==> *final(i) == *old(i),
    {
        let ghost evs = events.deep_view().items;
        let ghost terr = events.deep_view().error;
        let n = events.items.len();
        if *i >= n {
            return Err(end_error(events));
        }
        let ev = &events.items[*i];
        match ev {
            Event::StartElement { name, attributes } => {
                if str_eq(name.as_str(), "Mark") {

                    *i += 1;
                    let mut assignments: Vec<Assignment> = Vec::new();
                    let mut grade_calculation_summary: Vec<AssignmentGradeCalc> = Vec::new();
                    let mut standard_views: Vec<StandardView> = Vec::new();
                    proof {
                        assert(assignments.deep_view() =~= Seq::<AssignmentV>::empty());
                        assert(grade_calculation_summary.deep_view() =~= Seq::<
                            AssignmentGradeCalcV,
                        >::empty());
                        assert(standard_views.deep_view() =~= Seq::<StandardViewV>::empty());
                    }
                    let ghost i1 = *i as int;
                    loop
                        invariant
                            i1 <= *i as int,
                            *i <= n,
                            mark_items(evs, terr, i1, Seq::empty(), Seq::empty(), Seq::empty()) == mark_items(
                                evs,
                                terr,
                                *i as int,
                                assignments.deep_view(), grade_calculation_summary.deep_view(), standard_views.deep_view(),
                            ),
                        decreases n - *i,
                    {
                        if *i >= n {
                            return Err(end_error(events));
                        }
                        let ev2 = &events.items[*i];
                        match ev2 {
                            Event::StartElement { name: name2, .. } => {
                                if str_eq(name2.as_str(), "Assignment") {
                                    let ghost pre_dv = assignments.deep_view();
                                    match Assignment::from_event(events, i) {
                                        Ok(v) => {
                                            assignments.push(v);
                                            proof {
                                                assert(assignments.deep_view() =~= pre_dv.push(
                                                    v.deep_view(),
                                                ));
                                            }
                                        },
                                        Err(e) => {
                                            return Err(e);
                                        },
                                    }
                                } else if str_eq(name2.as_str(), "AssignmentGradeCalc") {
                                    let ghost pre_dv = grade_calculation_summary.deep_view();
                                    match AssignmentGradeCalc::from_event(events, i) {
                                        Ok(v) => {
                                            grade_calculation_summary.push(v);
                                            proof {
                                                assert(grade_calculation_summary.deep_view() =~= pre_dv.push(
                                                    v.deep_view(),
                                                ));
                                            }
                                        },
                                        Err(e) => {
                                            return Err(e);
                                        },
                                    }
                                } else if str_eq(name2.as_str(), "StandardView") {
                                    let ghost pre_dv = standard_views.deep_view();
                                    match StandardView::from_event(events, i) {
                                        Ok(v) => {
                                            standard_views.push(v);
                                            proof {
                                                assert(standard_views.deep_view() =~= pre_dv.push(
                                                    v.deep_view(),
                                                ));
                                            }
                                        },
                                        Err(e) => {
                                            return Err(e);
                                        },
                                    }
                                } else if str_eq(name2.as_str(), "Assignments") {
                                    *i += 1;
                                } else if str_eq(name2.as_str(), "GradeCalculationSummary") {
                                    *i += 1;
                                } else if str_eq(name2.as_str(), "StandardViews") {
                                    *i += 1;
                                } else {
                                    return Err(DecodingError::UnexpectedEvent(ev2.clone()));
                                }
                            },
                            Event::EndElement { name: name2 } => {
                                if str_eq(name2.as_str(), "Mark") {
                                    *i += 1;
                                    let calculated_score_raw = match get_dec_attr(attributes, "CalculatedScoreRaw") {
                                        Ok(v) => v,
                                        Err(e) => {
                                            return Err(e);
                                        },
                                    };
                                    let calculated_score_string = match get_attr_owned(attributes, "CalculatedScoreString") {
                                        Ok(v) => v,
                                        Err(e) => {
                                            return Err(e);
                                        },
                                    };
                                    let mark_name = match get_attr_owned(attributes, "MarkName") {
                                        Ok(v) => v,
                                        Err(e) => {
                                            return Err(e);
                                        },
                                    };
                                    return Ok(Mark { assignments, calculated_score_raw, calculated_score_string, grade_calculation_summary, mark_name, standard_views });
                                } else if str_eq(name2.as_str(), "Assignments") || str_eq(name2.as_str(), "GradeCalculationSummary") || str_eq(name2.as_str(), "StandardViews") {
                                    *i += 1;
                                } else {
                                    return Err(DecodingError::UnexpectedEvent(ev2.clone()));
                                }
                            },
                            Event::Whitespace(_) => {
                                *i += 1;
                            },
                            _ => {
                                return Err(DecodingError::UnexpectedEvent(ev2.clone()));
                            },
                        }
                    }
                } else {
                    Err(DecodingError::UnexpectedEvent(ev.clone()))
                }
            },
            _ => Err(DecodingError::UnexpectedEvent(ev.clone())),
        }
    }
}
/// The children collected between a `Course` element's start tag and its
/// own closing tag; wrapper tags around the child lists are passed over.
pub open spec fn course_items(
    evs: Seq<EventV>,
    terr: Option<Seq<char>>,
    i: int,
    marks: Seq<MarkV>,
) -> Result<(Seq<MarkV>, int), DecodingErrorV>
    decreases evs.len() - i,
{
    if i < 0 || i >= evs.len() {
        Err(end_err(terr))
    } else {
        match evs[i] {
            EventV::StartElement { name, attributes } => {
                if name == "Mark"@ {
                    match decode_mark(evs, terr, i) {
                        Ok(p) => if i < p.1 <= evs.len() {
                            course_items(evs, terr, p.1, marks.push(p.0))
                        } else {
                            Err(end_err(terr))
                        },
                        Err(e) => Err(e),
                    }
                } else if name == "Marks"@ {
                    course_items(evs, terr, i + 1, marks)
                } else {
                    Err(DecodingErrorV::UnexpectedEvent(evs[i]))
                }
            },
            EventV::EndElement { name } => {
                if name == "Course"@ {
                    Ok((marks, i + 1))
                } else if name == "Marks"@ {
                    course_items(evs, terr, i + 1, marks)
                } else {
                    Err(DecodingErrorV::UnexpectedEvent(evs[i]))
                }
            },
            EventV::Whitespace(_) => course_items(evs, terr, i + 1, marks),
            _ => Err(DecodingErrorV::UnexpectedEvent(evs[i])),
        }
    }
}
/// Decoding a `Course` element whose start event stands at `i`.
pub open spec fn decode_course(evs: Seq<EventV>, terr: Option<Seq<char>>, i: int) -> Result<
    (CourseV, int),
    DecodingErrorV,
> {
    if i < 0 || i >= evs.len() {
        Err(end_err(terr))
    } else {
        match evs[i] {
            EventV::StartElement { name, attributes } => if name == "Course"@ {
                match i8_attr(attributes, "HighlightPercentageCutOffForProgressBar"@) {
                Err(e) => Err(e),
                Ok(highlight_percentage_cut_off_for_progress_bar) => match course_items(evs, terr, i + 1, Seq::empty()) {
                Err(e) => Err(e),
                Ok(p) => match i8_attr(attributes, "Period"@) {
                Err(e) => Err(e),
                Ok(period) => match req_attr(attributes, "Room"@) {
                Err(e) => Err(e),
                Ok(room) => match req_attr(attributes, "Staff"@) {
                Err(e) => Err(e),
                Ok(staff) => match req_attr(attributes, "StaffEMail"@) {
                Err(e) => Err(e),
                Ok(staff_email) => match req_attr(attributes, "Title"@) {
                Err(e) => Err(e),
                Ok(raw_title) => {
                    let title = parse_title_spec(raw_title);
                    Ok((CourseV { highlight_percentage_cut_off_for_progress_bar: highlight_percentage_cut_off_for_progress_bar, marks: p.0, period: period, room: room, staff: staff, staff_email: staff_email, title: title }, p.1))
                },
            },
            },
            },
            },
            },
            },
            }
            } else {
                Err(DecodingErrorV::UnexpectedEvent(evs[i]))
            },
            _ => Err(DecodingErrorV::UnexpectedEvent(evs[i])),
        }
    }
}
impl Course {
    /// Decodes one `Course` element and exactly the markup subtree below
    /// it, leaving the cursor on the first event after what it consumed.
    #[verifier::loop_isolation(false)]
    pub fn from_event(events: &EventList, i: &mut usize) -> (r: DecoderResult<Course>)
        requires
            *old(i) <= events.items@.len(),
        ensures
            ({
                let s = decode_course(
                    events.deep_view().items,
                    events.deep_view().error,
                    *old(i) as int,
                );
                match r {
                    Ok(v) => s matches Ok(p) && p.0 == v.deep_view() && p.1 == *final(i) as int
                        && *old(i) < *final(i) <= events.items@.len(),
                    Err(e) => s matches Err(ev) && ev == e.deep_view(),
                }
            }),
            *old(i) <= *final(i) <= events.items@.len(),
            !starts_with_tag(
                events.deep_view().items,
                *old(i) as int,
                "Course"@,
            ) ==> *final(i) == *old(i),
    {
        let ghost evs = events.deep_view().items;
        let ghost terr = events.deep_view().error;
        let n = events.items.len();
        if *i >= n {
            return Err(end_error(events));
        }
        let ev = &events.items[*i];
        match ev {
            Event::StartElement { name, attributes } => {
                if str_eq(name.as_str(), "Course") {
                    let highlight_percentage_cut_off_for_progress_bar = match get_i8_attr(attributes, "HighlightPercentageCutOffForProgressBar") {
                        Ok(v) => v,
                        Err(e) => {
                            return Err(e);
                        },
                    };
                    *i += 1;
                    let mut marks: Vec<Mark> = Vec::new();
                    proof {
                        assert(marks.deep_view() =~= Seq::<MarkV>::empty());
                    }
                    let ghost i1 = *i as int;
                    loop
                        invariant
                            i1 <= *i as int,
                            *i <= n,
                            course_items(evs, terr, i1, Seq::empty()) == course_items(
                                evs,
                                terr,
                                *i as int,
                                marks.deep_view(),
                            ),
                        decreases n - *i,
                    {
                        if *i >= n {
                            return Err(end_error(events));
                        }
                        let ev2 = &events.items[*i];
                        match ev2 {
                            Event::StartElement { name: name2, .. } => {
                                if str_eq(name2.as_str(), "Mark") {
                                    let ghost pre_dv = marks.deep_view();
                                    match Mark::from_event(events, i) {
                                        Ok(v) => {
                                            marks.push(v);
                                            proof {
                                                assert(marks.deep_view() =~= pre_dv.push(
                                                    v.deep_view(),
                                                ));
                                            }
                                        },
                                        Err(e) => {
                                            return Err(e);
                                        },
                                    }
                                } else if str_eq(name2.as_str(), "Marks") {
                                    *i += 1;
                                } else {
                                    return Err(DecodingError::UnexpectedEvent(ev2.clone()));
                                }
                            },
                            Event::EndElement { name: name2 } => {
                                if str_eq(name2.as_str(), "Course") {
                                    *i += 1;
                                    let period = match get_i8_attr(attributes, "Period") {
                                        Ok(v) => v,
                                        Err(e) => {
                                            return Err(e);
                                        },
                                    };
                                    let room = match get_attr_owned(attributes, "Room") {
                                        Ok(v) => v,
                                        Err(e) => {
                                            return Err(e);
                                        },
                                    };
                                    let staff = match get_attr_owned(attributes, "Staff") {
                                        Ok(v) => v,
                                        Err(e) => {
                                            return Err(e);
                                        },
                                    };
                                    let staff_email = match get_attr_owned(attributes, "StaffEMail") {
                                        Ok(v) => v,
                                        Err(e) => {
                                            return Err(e);
                                        },
                                    };
                                    let title = match get_attr(attributes, "Title") {
                                        Some(v) => CourseTitle::parse(v.as_str()),
                                        None => {
                                            return Err(DecodingError::MissingAttribute("Title".to_owned()));
                                        },
                                    };
                                    return Ok(Course { highlight_percentage_cut_off_for_progress_bar, marks, period, room, staff, staff_email, title });
                                } else if str_eq(name2.as_str(), "Marks") {
                                    *i += 1;
                                } else {
                                    return Err(DecodingError::UnexpectedEvent(ev2.clone()));
                                }
                            },
                            Event::Whitespace(_) => {
                                *i += 1;
                            },
                            _ => {
                                return Err(DecodingError::UnexpectedEvent(ev2.clone()));
                            },
                        }
                    }
                } else {
                    Err(DecodingError::UnexpectedEvent(ev.clone()))
                }
            },
            _ => Err(DecodingError::UnexpectedEvent(ev.clone())),
        }
    }
}
} // verus!

verus! {

/// The reporting period a gradebook reports before one is seen: the epoch
/// day with an empty label.
pub open spec fn default_reporting_period() -> ReportingPeriodV {
    ReportingPeriodV {
        end_date: Date { year: 1970, month: 1, day: 1 },
        grade_period: Seq::empty(),
        start_date: Date { year: 1970, month: 1, day: 1 },
    }
}

impl Default for ReportingPeriod {
    /// The placeholder period used until the payload names one.
    fn default() -> (r: ReportingPeriod)
        ensures
            r.deep_view() == default_reporting_period(),
    {
        let r = ReportingPeriod {
            end_date: Date { year: 1970, month: 1, day: 1 },
            grade_period: String::new(),
            start_date: Date { year: 1970, month: 1, day: 1 },
        };
        proof {
            assert(r.deep_view().grade_period =~= default_reporting_period().grade_period);
        }
        r
    }
}

/// The members collected while scanning a gradebook payload: courses and
/// report periods accumulate, the reporting period is replaced when seen,
/// the payload's own tag and the wrapper tags around its lists are passed
/// over, and any other markup fails the decode: the schema is closed.
pub open spec fn gradebook_items(
    evs: Seq<EventV>,
    terr: Option<Seq<char>>,
    i: int,
    courses: Seq<CourseV>,
    rp: ReportingPeriodV,
    rps: Seq<ReportPeriodV>,
) -> Result<(GradebookV, int), DecodingErrorV>
    decreases evs.len() - i,
{
    if i < 0 || i >= evs.len() {
        Err(end_err(terr))
    } else {
        match evs[i] {
            EventV::StartElement { name, attributes } => {
                if name == "Course"@ {
                    match decode_course(evs, terr, i) {
                        Ok(p) => if i < p.1 <= evs.len() {
                            gradebook_items(evs, terr, p.1, courses.push(p.0), rp, rps)
                        } else {
                            Err(end_err(terr))
                        },
                        Err(e) => Err(e),
                    }
                } else if name == "ReportPeriod"@ {
                    match decode_report_period(evs, terr, i) {
                        Ok(p) => if i < p.1 <= evs.len() {
                            gradebook_items(evs, terr, p.1, courses, rp, rps.push(p.0))
                        } else {
                            Err(end_err(terr))
                        },
                        Err(e) => Err(e),
                    }
                } else if name == "ReportingPeriod"@ {
                    match decode_reporting_period(evs, terr, i) {
                        Ok(p) => if i < p.1 <= evs.len() {
                            gradebook_items(evs, terr, p.1, courses, p.0, rps)
                        } else {
                            Err(end_err(terr))
                        },
                        Err(e) => Err(e),
                    }
                } else if name == "Gradebook"@ || name == "Courses"@ || name
                == "ReportingPeriods"@ {
                    gradebook_items(evs, terr, i + 1, courses, rp, rps)
                } else {
                    Err(DecodingErrorV::UnexpectedEvent(evs[i]))
                }
            },
            EventV::EndElement { name } => {
                if name == "Gradebook"@ {
                    Ok((GradebookV { courses, reporting_period: rp, reporting_periods: rps }, i + 1))
                } else if name == "Courses"@ || name == "ReportingPeriods"@ {
                    gradebook_items(evs, terr, i + 1, courses, rp, rps)
                } else {
                    Err(DecodingErrorV::UnexpectedEvent(evs[i]))
                }
            },
            EventV::Whitespace(_) => gradebook_items(evs, terr, i + 1, courses, rp, rps),
            EventV::StartDocument => gradebook_items(evs, terr, i + 1, courses, rp, rps),
            _ => Err(DecodingErrorV::UnexpectedEvent(evs[i])),
        }
    }
}

/// Decoding a whole gradebook payload from position `i`.
pub open spec fn decode_gradebook(evs: Seq<EventV>, terr: Option<Seq<char>>, i: int) -> Result<
    (GradebookV, int),
    DecodingErrorV,
> {
    gradebook_items(evs, terr, i, Seq::empty(), default_reporting_period(), Seq::empty())
}

/// What decoding a whole document text yields.
pub open spec fn gradebook_from_xml_spec(s: Seq<char>) -> Result<GradebookV, DecodingErrorV> {
    match decode_gradebook(
        crate::events::tokens_of(s).items,
        crate::events::tokens_of(s).error,
        0,
    ) {
        Ok(p) => Ok(p.0),
        Err(e) => Err(e),
    }
}

impl Gradebook {
    /// Decodes a gradebook from the event cursor, collecting courses and
    /// periods until the gradebook's closing tag; any element the closed
    /// schema does not name fails the decode.
    #[verifier::loop_isolation(false)]
    pub fn from_event(events: &EventList, i: &mut usize) -> (r: DecoderResult<Gradebook>)
        requires
            *old(i) <= events.items@.len(),
        ensures
            ({
                let s = decode_gradebook(
                    events.deep_view().items,
                    events.deep_view().error,
                    *old(i) as int,
                );
                match r {
                    Ok(v) => s matches Ok(p) && p.0 == v.deep_view() && p.1 == *final(i) as int
                        && *old(i) < *final(i) <= events.items@.len(),
                    Err(e) => s matches Err(ev) && ev == e.deep_view(),
                }
            }),
            *old(i) <= *final(i) <= events.items@.len(),
    {
        let ghost evs = events.deep_view().items;
        let ghost terr = events.deep_view().error;
        let n = events.items.len();
        let mut courses: Vec<Course> = Vec::new();
        let mut reporting_period: ReportingPeriod = Default::default();
        let mut reporting_periods: Vec<ReportPeriod> = Vec::new();
        proof {
            assert(courses.deep_view() =~= Seq::<CourseV>::empty());
            assert(reporting_periods.deep_view() =~= Seq::<ReportPeriodV>::empty());
        }
        let ghost i1 = *i as int;
        loop
            invariant
                i1 <= *i as int,
                *i <= n,
                gradebook_items(
                    evs,
                    terr,
                    i1,
                    Seq::empty(),
                    default_reporting_period(),
                    Seq::empty(),
                ) == gradebook_items(
                    evs,
                    terr,
                    *i as int,
                    courses.deep_view(),
                    reporting_period.deep_view(),
                    reporting_periods.deep_view(),
                ),
            decreases n - *i,
        {
            if *i >= n {
                return Err(end_error(events));
            }
            let ev = &events.items[*i];
            match ev {
                Event::StartElement { name, .. } => {
                    if str_eq(name.as_str(), "Course") {
                        let ghost pre_dv = courses.deep_view();
                        match Course::from_event(events, i) {
                            Ok(v) => {
                                courses.push(v);
                                proof {
                                    assert(courses.deep_view() =~= pre_dv.push(v.deep_view()));
                                }
                            },
                            Err(e) => {
                                return Err(e);
                            },
                        }
                    } else if str_eq(name.as_str(), "ReportPeriod") {
                        let ghost pre_dv = reporting_periods.deep_view();
                        match ReportPeriod::from_event(events, i) {
                            Ok(v) => {
                                reporting_periods.push(v);
                                proof {
                                    assert(reporting_periods.deep_view() =~= pre_dv.push(
                                        v.deep_view(),
                                    ));
                                }
                            },
                            Err(e) => {
                                return Err(e);
                            },
                        }
                    } else if str_eq(name.as_str(), "ReportingPeriod") {
                        match ReportingPeriod::from_event(events, i) {
                            Ok(v) => {
                                reporting_period = v;
                            },
                            Err(e) => {
                                return Err(e);
                            },
                        }
                    } else if str_eq(name.as_str(), "Gradebook") || str_eq(
                        name.as_str(),
                        "Courses",
                    ) || str_eq(name.as_str(), "ReportingPeriods") {
                        *i += 1;
                    } else {
                        return Err(DecodingError::UnexpectedEvent(ev.clone()));
                    }
                },
                Event::EndElement { name } => {
                    if str_eq(name.as_str(), "Gradebook") {
                        *i += 1;
                        return Ok(
                            Gradebook { courses, reporting_period, reporting_periods },
                        );
                    } else if str_eq(name.as_str(), "Courses") || str_eq(
                        name.as_str(),
                        "ReportingPeriods",
                    ) {
                        *i += 1;
                    } else {
                        return Err(DecodingError::UnexpectedEvent(ev.clone()));
                    }
                },
                Event::Whitespace(_) => {
                    *i += 1;
                },
                Event::StartDocument => {
                    *i += 1;
                },
                _ => {
                    return Err(DecodingError::UnexpectedEvent(ev.clone()));
                },
            }
        }
    }

    /// Decodes a gradebook from a whole document's text.
    pub fn from_xml(xml: &str) -> (r: DecoderResult<Gradebook>)
        ensures
            crate::decoder::deep_res(r) == gradebook_from_xml_spec(xml@),
    {
        let events = crate::events::tokenize(xml);
        let mut i: usize = 0;
        match Gradebook::from_event(&events, &mut i) {
            Ok(g) => Ok(g),
            Err(e) => Err(e),
        }
    }
}

/// A gradebook the differ accepts: every course carries at least one mark.
/// The decoder can produce a course with an empty mark list; callers test
/// with [`Gradebook::has_marks`] before diffing.
pub open spec fn gradebook_wf(g: GradebookV) -> bool {
    forall|i: int| 0 <= i < g.courses.len() ==> (#[trigger] g.courses[i]).marks.len() >= 1
}

impl Gradebook {
    /// Whether every course carries at least one mark, as the differ
    /// requires.
    #[verifier::loop_isolation(false)]
    pub fn has_marks(&self) -> (r: bool)
        ensures
            r == gradebook_wf(self.deep_view()),
    {
        let mut t: usize = 0;
        while t < self.courses.len()
            invariant
                t <= self.courses@.len(),
                forall|u: int|
                    0 <= u < t ==> (#[trigger] self.deep_view().courses[u]).marks.len() >= 1,
            decreases self.courses@.len() - t,
        {
            if self.courses[t].marks.len() == 0 {
                proof {
                    assert(self.deep_view().courses[t as int].marks.len() == 0);
                }
                return false;
            }
            t += 1;
        }
        true
    }
}

impl Mark {
    /// The overall calculated grade, as the portal displays it.
    pub fn calculated_grade(&self) -> (r: String)
        ensures
            r@ == self.deep_view().calculated_score_string,
    {
        self.calculated_score_string.clone()
    }
}

} // verus!


verus! {

// The decode laws: what a decoder yields on a well-formed subtree, stated
// over the subtree's own attributes and members.

/// A self-contained assignment element: its start tag carrying `attrs`, an
/// empty standards wrapper, and its own closing tag.
pub open spec fn assignment_block_at(
    evs: Seq<EventV>,
    i: int,
    attrs: Seq<(Seq<char>, Seq<char>)>,
) -> bool {
    &&& 0 <= i && i + 4 <= evs.len()
    &&& evs[i] == (EventV::StartElement { name: "Assignment"@, attributes: attrs })
    &&& (evs[i + 1] matches EventV::StartElement { name, .. } && name == "Standards"@)
    &&& evs[i + 2] == (EventV::EndElement { name: "Standards"@ })
    &&& evs[i + 3] == (EventV::EndElement { name: "Assignment"@ })
}

/// Decoding one well-formed assignment element yields exactly its source
/// attributes, field for field, and consumes exactly its four events.
#[verifier::rlimit(80)]
pub proof fn lemma_assignment_fields(
    evs: Seq<EventV>,
    terr: Option<Seq<char>>,
    i: int,
    attrs: Seq<(Seq<char>, Seq<char>)>,
)
    requires
        assignment_block_at(evs, i, attrs),
        req_attr(attrs, "Type"@) is Ok,
        req_attr(attrs, "GradebookID"@) is Ok,
        req_attr(attrs, "Measure"@) is Ok,
        date_attr(attrs, "Date"@) is Ok,
        date_attr(attrs, "DueDate"@) is Ok,
        req_attr(attrs, "Score"@) is Ok,
        req_attr(attrs, "ScoreType"@) is Ok,
        req_attr(attrs, "Points"@) is Ok,
        req_attr(attrs, "Notes"@) is Ok,
        req_attr(attrs, "TeacherID"@) is Ok,
        req_attr(attrs, "StudentID"@) is Ok,
        bool_attr(attrs, "HasDropBox"@) is Ok,
        date_attr(attrs, "DropStartDate"@) is Ok,
        date_attr(attrs, "DropEndDate"@) is Ok,
    ensures
        decode_assignment(evs, terr, i) matches Ok(p) && ({
            &&& p.1 == i + 4
            &&& p.0.standards.len() == 0
            &&& Ok::<_, DecodingErrorV>(p.0._type) == req_attr(attrs, "Type"@)
            &&& Ok::<_, DecodingErrorV>(p.0.gradebook_id) == req_attr(attrs, "GradebookID"@)
            &&& Ok::<_, DecodingErrorV>(p.0.measure) == req_attr(attrs, "Measure"@)
            &&& Ok::<_, DecodingErrorV>(p.0.date) == date_attr(attrs, "Date"@)
            &&& Ok::<_, DecodingErrorV>(p.0.due_date) == date_attr(attrs, "DueDate"@)
            &&& (req_attr(attrs, "Score"@) matches Ok(v) && p.0.score == parse_score_spec(v))
            &&& Ok::<_, DecodingErrorV>(p.0.score_type) == req_attr(attrs, "ScoreType"@)
            &&& (req_attr(attrs, "Points"@) matches Ok(v) && p.0.points == parse_points_spec(v))
            &&& Ok::<_, DecodingErrorV>(p.0.notes) == req_attr(attrs, "Notes"@)
            &&& Ok::<_, DecodingErrorV>(p.0.teacher_id) == req_attr(attrs, "TeacherID"@)
            &&& Ok::<_, DecodingErrorV>(p.0.student_id) == req_attr(attrs, "StudentID"@)
            &&& Ok::<_, DecodingErrorV>(p.0.has_drop_box) == bool_attr(attrs, "HasDropBox"@)
            &&& Ok::<_, DecodingErrorV>(p.0.drop_start_date) == date_attr(attrs, "DropStartDate"@)
            &&& Ok::<_, DecodingErrorV>(p.0.drop_end_date) == date_attr(attrs, "DropEndDate"@)
        }),
{
    broadcast use vstd::string::group_string_axioms;

    reveal_strlit("Assignment");
    reveal_strlit("Standards");
    reveal_strlit("Standard");
    assert("Standard"@.len() == 8);
    assert("Standards"@.len() == 9);
    assert("Assignment"@.len() == 10);
    assert(assignment_items(evs, terr, i + 1, Seq::empty()) == assignment_items(
        evs,
        terr,
        i + 2,
        Seq::empty(),
    ));
    assert(assignment_items(evs, terr, i + 2, Seq::empty()) == assignment_items(
        evs,
        terr,
        i + 3,
        Seq::empty(),
    ));
    assert(assignment_items(evs, terr, i + 3, Seq::empty()) == Ok::<_, DecodingErrorV>((
        Seq::<StandardV>::empty(),
        i + 4,
    )));
}

/// The assignment decoded at position `j`, where one decodes.
pub open spec fn decoded_assignment_at(evs: Seq<EventV>, terr: Option<Seq<char>>, j: int) -> AssignmentV {
    match decode_assignment(evs, terr, j) {
        Ok(q) => q.0,
        Err(_) => arbitrary(),
    }
}

#[verifier::rlimit(80)]
proof fn lemma_mark_items_blocks(
    evs: Seq<EventV>,
    terr: Option<Seq<char>>,
    base: int,
    n: int,
    k: int,
    acc: Seq<AssignmentV>,
)
    requires
        0 <= base,
        0 <= k <= n,
        base + 4 * n + 2 <= evs.len(),
        forall|t: int|
            k <= t < n ==> ((#[trigger] decode_assignment(evs, terr, base + 4 * t)) matches Ok(
                q,
            ) && q.1 == base + 4 * t + 4),
        evs[base + 4 * n] == (EventV::EndElement { name: "Assignments"@ }),
        evs[base + 4 * n + 1] == (EventV::EndElement { name: "Mark"@ }),
    ensures
        mark_items(evs, terr, base + 4 * k, acc, Seq::empty(), Seq::empty()) == Ok::<
            _,
            DecodingErrorV,
        >((
            (
                acc + Seq::new(
                    (n - k) as nat,
                    |t: int| decoded_assignment_at(evs, terr, base + 4 * (k + t)),
                ),
                Seq::<AssignmentGradeCalcV>::empty(),
                Seq::<StandardViewV>::empty(),
            ),
            base + 4 * n + 2,
        )),
    decreases n - k,
{
    broadcast use vstd::string::group_string_axioms;

    reveal_strlit("Assignment");
    reveal_strlit("Assignments");
    reveal_strlit("Mark");
    assert("Assignment"@.len() == 10);
    assert("Assignments"@.len() == 11);
    assert("Mark"@.len() == 4);
    let blocks = Seq::new(
        (n - k) as nat,
        |t: int| decoded_assignment_at(evs, terr, base + 4 * (k + t)),
    );
    if k == n {
        assert(mark_items(evs, terr, base + 4 * n, acc, Seq::empty(), Seq::empty())
            == mark_items(evs, terr, base + 4 * n + 1, acc, Seq::empty(), Seq::empty()));
        assert(acc + blocks =~= acc);
    } else {
        let j = base + 4 * k;
        assert(decode_assignment(evs, terr, j) matches Ok(q) && q.1 == j + 4);
        match decode_assignment(evs, terr, j) {
            Ok(q) => {
                assert(evs[j] matches EventV::StartElement { name, .. } && name
                    == "Assignment"@) by {
                    match evs[j] {
                        EventV::StartElement { name, attributes } => {
                            if name != "Assignment"@ {
                                assert(decode_assignment(evs, terr, j) is Err);
                            }
                        },
                        _ => {
                            assert(decode_assignment(evs, terr, j) is Err);
                        },
                    }
                }
                lemma_mark_items_blocks(evs, terr, base, n, k + 1, acc.push(q.0));
                let rest = Seq::new(
                    (n - k - 1) as nat,
                    |t: int| decoded_assignment_at(evs, terr, base + 4 * (k + 1 + t)),
                );
                assert(acc.push(q.0) + rest =~= acc + blocks);
            },
            Err(_) => {
                assert(false);
            },
        }
    }
}

/// Decoding a well-formed mark subtree holding exactly `n` assignment
/// elements yields exactly `n` assignments, the `t`-th decoded from the
/// `t`-th element, in source order.
/// Folding a mark's start tag and member result into the decoded mark.
proof fn lemma_mark_decode_of_items(
    evs: Seq<EventV>,
    terr: Option<Seq<char>>,
    i: int,
    blocks: Seq<AssignmentV>,
    end: int,
)
    requires
        0 <= i < evs.len(),
        (evs[i] matches EventV::StartElement { name, attributes } && name == "Mark"@
            && dec_attr(attributes, "CalculatedScoreRaw"@) is Ok
            && req_attr(attributes, "CalculatedScoreString"@) is Ok
            && req_attr(attributes, "MarkName"@) is Ok),
        mark_items(evs, terr, i + 1, Seq::empty(), Seq::empty(), Seq::empty()) == Ok::<
            _,
            DecodingErrorV,
        >(((blocks, Seq::<AssignmentGradeCalcV>::empty(), Seq::<StandardViewV>::empty()), end)),
    ensures
        decode_mark(evs, terr, i) matches Ok(p) && ({
            &&& p.1 == end
            &&& p.0.assignments == blocks
            &&& p.0.grade_calculation_summary.len() == 0
            &&& p.0.standard_views.len() == 0
        }),
{
}

#[verifier::rlimit(100)]
pub proof fn lemma_mark_assignment_count(
    evs: Seq<EventV>,
    terr: Option<Seq<char>>,
    i: int,
    n: int,
)
    requires
        0 <= i,
        0 <= n,
        i + 4 * n + 4 <= evs.len(),
        (evs[i] matches EventV::StartElement { name, attributes } && name == "Mark"@
            && dec_attr(attributes, "CalculatedScoreRaw"@) is Ok
            && req_attr(attributes, "CalculatedScoreString"@) is Ok
            && req_attr(attributes, "MarkName"@) is Ok),
        (evs[i + 1] matches EventV::StartElement { name, .. } && name == "Assignments"@),
        forall|t: int|
            0 <= t < n ==> ((#[trigger] decode_assignment(evs, terr, i + 2 + 4 * t)) matches Ok(
                q,
            ) && q.1 == i + 2 + 4 * t + 4),
        evs[i + 2 + 4 * n] == (EventV::EndElement { name: "Assignments"@ }),
        evs[i + 3 + 4 * n] == (EventV::EndElement { name: "Mark"@ }),
    ensures
        decode_mark(evs, terr, i) matches Ok(p) && ({
            &&& p.1 == i + 4 + 4 * n
            &&& p.0.assignments.len() == n
            &&& forall|t: int|
                0 <= t < n ==> ((#[trigger] decode_assignment(evs, terr, i + 2 + 4 * t)) matches
                Ok(q) && p.0.assignments[t] == q.0)
            &&& p.0.grade_calculation_summary.len() == 0
            &&& p.0.standard_views.len() == 0
        }),
{
    broadcast use vstd::string::group_string_axioms;

    reveal_strlit("Assignment");
    reveal_strlit("Assignments");
    reveal_strlit("AssignmentGradeCalc");
    reveal_strlit("StandardView");
    reveal_strlit("Mark");
    assert("Assignment"@.len() == 10);
    assert("Assignments"@.len() == 11);
    assert("AssignmentGradeCalc"@.len() == 19);
    assert("StandardView"@.len() == 12);
    assert("Mark"@.len() == 4);
    lemma_mark_items_blocks(evs, terr, i + 2, n, 0, Seq::empty());
    let blocks = Seq::new(
        n as nat,
        |t: int| decoded_assignment_at(evs, terr, i + 2 + 4 * t),
    );
    match evs[i + 1] {
        EventV::StartElement { name, attributes } => {
            assert(name == "Assignments"@);
            assert(name != "Assignment"@);
            assert(mark_items(evs, terr, i + 1, Seq::empty(), Seq::empty(), Seq::empty())
                == mark_items(evs, terr, i + 2, Seq::empty(), Seq::empty(), Seq::empty()));
        },
        _ => {
            assert(false);
        },
    }
    assert(Seq::<AssignmentV>::empty() + Seq::new(
        n as nat,
        |t: int| decoded_assignment_at(evs, terr, i + 2 + 4 * (0 + t)),
    ) =~= blocks);
    lemma_mark_decode_of_items(evs, terr, i, blocks, i + 4 + 4 * n);
    match decode_mark(evs, terr, i) {
        Ok(p) => {
            assert(p.0.assignments == blocks);
            assert forall|t: int|
                0 <= t < n implies ((#[trigger] decode_assignment(evs, terr, i + 2 + 4 * t))
                matches Ok(q) && p.0.assignments[t] == q.0) by {
                assert(p.0.assignments[t] == decoded_assignment_at(evs, terr, i + 2 + 4 * t));
            }
        },
        Err(_) => {
            assert(false);
        },
    }
}

} // verus!
