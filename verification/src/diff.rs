//! The pairing engine and the changeset builder.
//!
//! Pairing matches the elements of two ordered collections by a stable key:
//! each element of the old collection is paired with the first unclaimed
//! new element carrying the same key, and the new elements left unclaimed
//! follow in their own order. The changeset builder walks two gradebook
//! trees in lock-step, pairing courses by title and assignments by
//! gradebook identifier, and records a typed change for every field that
//! differs.

use vstd::prelude::*;
use vstd::pervasive::VecAdditionalExecFns;

use crate::decoder::Date;
use crate::gradebook::Assignment;
use crate::gradebook::AssignmentPoints;
use crate::gradebook::AssignmentPointsV;
use crate::gradebook::AssignmentScore;
use crate::gradebook::AssignmentScoreV;
use crate::gradebook::AssignmentV;
use crate::gradebook::Course;
use crate::gradebook::CourseTitle;
use crate::gradebook::CourseTitleV;
use crate::gradebook::CourseV;
use crate::gradebook::Gradebook;
use crate::gradebook::gradebook_wf;
use crate::gradebook::GradebookV;
use crate::text::str_eq;

verus! {

/// A value that can be matched across snapshots by a stable key.
pub trait Pairable<K>: DeepView + Sized {
    /// The pairing key of a value.
    spec fn vkey(v: Self::V) -> K;

    /// Whether two values share a pairing key.
    fn same_key(&self, other: &Self) -> (r: bool)
        ensures
            r == (Self::vkey(self.deep_view()) == Self::vkey(other.deep_view())),
    ;
}

impl Pairable<CourseTitleV> for Course {
    /// Courses pair by title: two courses with the same title are the same
    /// course across snapshots.
    open spec fn vkey(v: CourseV) -> CourseTitleV {
        v.title
    }

    fn same_key(&self, other: &Self) -> (r: bool) {
        match (&self.title, &other.title) {
            (CourseTitle::Parsed(a, b), CourseTitle::Parsed(c, d)) => str_eq(
                a.as_str(),
                c.as_str(),
            ) && str_eq(b.as_str(), d.as_str()),
            (CourseTitle::Unparseable(a), CourseTitle::Unparseable(b)) => str_eq(
                a.as_str(),
                b.as_str(),
            ),
            _ => false,
        }
    }
}

impl Pairable<Seq<char>> for Assignment {
    /// Assignments pair by their stable gradebook identifier.
    open spec fn vkey(v: AssignmentV) -> Seq<char> {
        v.gradebook_id
    }

    fn same_key(&self, other: &Self) -> (r: bool) {
        str_eq(self.gradebook_id.as_str(), other.gradebook_id.as_str())
    }
}

/// The first unclaimed slot at or after `j` whose value carries key `k`.
pub open spec fn match_from<K, V: Pairable<K>>(rem: Seq<Option<V::V>>, k: K, j: int) -> Option<
    int,
>
    decreases rem.len() - j,
{
    if j < 0 || j >= rem.len() {
        None
    } else {
        match rem[j] {
            Some(x) => if V::vkey(x) == k {
                Some(j)
            } else {
                match_from::<K, V>(rem, k, j + 1)
            },
            None => match_from::<K, V>(rem, k, j + 1),
        }
    }
}

/// Pairs the old elements from position `oi` on against the unclaimed new
/// elements in `rem`; yields the pairs and what remains unclaimed.
pub open spec fn pair_olds<K, V: Pairable<K>>(
    olds: Seq<V::V>,
    rem: Seq<Option<V::V>>,
    oi: int,
) -> (Seq<(Option<V::V>, Option<V::V>)>, Seq<Option<V::V>>)
    decreases olds.len() - oi,
{
    if oi < 0 || oi >= olds.len() {
        (Seq::empty(), rem)
    } else {
        match match_from::<K, V>(rem, V::vkey(olds[oi]), 0) {
            Some(j) => match rem[j] {
                Some(x) => {
                    let pr = pair_olds::<K, V>(olds, rem.update(j, None), oi + 1);
                    (seq![(Some(olds[oi]), Some(x))] + pr.0, pr.1)
                },
                None => (Seq::empty(), rem),
            },
            None => {
                let pr = pair_olds::<K, V>(olds, rem, oi + 1);
                (seq![(Some(olds[oi]), None::<V::V>)] + pr.0, pr.1)
            },
        }
    }
}

/// The unclaimed new elements, in their own order, as pairs with no old
/// side.
pub open spec fn leftovers<T>(rem: Seq<Option<T>>) -> Seq<(Option<T>, Option<T>)>
    decreases rem.len(),
{
    if rem.len() == 0 {
        Seq::empty()
    } else {
        match rem[0] {
            Some(x) => seq![(None::<T>, Some(x))] + leftovers(rem.subrange(1, rem.len() as int)),
            None => leftovers(rem.subrange(1, rem.len() as int)),
        }
    }
}

/// The new elements with the claimed slots blanked out.
pub open spec fn rem_of<T>(news: Seq<T>, taken: Seq<bool>) -> Seq<Option<T>> {
    Seq::new(news.len(), |j: int| if taken[j] { None } else { Some(news[j]) })
}

/// What pairing yields: every old element in order, each with its match if
/// one exists, then every unmatched new element in order.
pub open spec fn pair_spec<K, V: Pairable<K>>(olds: Seq<V::V>, news: Seq<V::V>) -> Seq<
    (Option<V::V>, Option<V::V>),
> {
    let pr = pair_olds::<K, V>(olds, news.map_values(|x: V::V| Some(x)), 0);
    pr.0 + leftovers(pr.1)
}

/// The first unclaimed element of `new` sharing `o`'s key, if any.
#[verifier::loop_isolation(false)]
fn find_match<K, V: Pairable<K>>(o: &V, new: &Vec<V>, taken: &Vec<bool>) -> (r: Option<usize>)
    requires
        taken@.len() == new@.len(),
    ensures
        match r {
            Some(j) => j < new@.len() && !taken@[j as int] && match_from::<K, V>(
                rem_of(new.deep_view(), taken@),
                V::vkey(o.deep_view()),
                0,
            ) == Some(j as int),
            None => match_from::<K, V>(
                rem_of(new.deep_view(), taken@),
                V::vkey(o.deep_view()),
                0,
            ) is None,
        },
{
    let ghost remc = rem_of(new.deep_view(), taken@);
    let ghost k = V::vkey(o.deep_view());
    let mut j: usize = 0;
    while j < new.len()
        invariant
            j <= new@.len(),
            match_from::<K, V>(remc, k, 0) == match_from::<K, V>(remc, k, j as int),
        decreases new@.len() - j,
    {
        if !taken[j] && o.same_key(&new[j]) {
            return Some(j);
        }
        j += 1;
    }
    None
}

/// Pairs two collections by key. Every element of `old` and every element
/// of `new` appears in exactly one output pair.
#[verifier::loop_isolation(false)]
pub fn pair_values<'a, K, V: Pairable<K>>(old: &'a Vec<V>, new: &'a Vec<V>) -> (r: Vec<
    (Option<&'a V>, Option<&'a V>),
>)
    ensures
        r.deep_view() == pair_spec::<K, V>(old.deep_view(), new.deep_view()),
        forall|t: int|
            0 <= t < r.deep_view().len() ==> ((#[trigger] r.deep_view()[t]).0 matches Some(x)
                ==> old.deep_view().contains(x)) && (r.deep_view()[t].1 matches Some(y)
                ==> new.deep_view().contains(y)),
{
    let ghost oldv = old.deep_view();
    let ghost newv = new.deep_view();
    let ghost rem0 = newv.map_values(|x: V::V| Some(x));
    let mut taken: Vec<bool> = Vec::new();
    let mut t0: usize = 0;
    while t0 < new.len()
        invariant
            t0 <= new@.len(),
            taken@.len() == t0,
            forall|j: int| 0 <= j < t0 ==> #[trigger] taken@[j] == false,
        decreases new@.len() - t0,
    {
        taken.push(false);
        t0 += 1;
    }
    proof {
        assert(rem_of(newv, taken@) =~= rem0);
    }
    let mut pairs: Vec<(Option<&'a V>, Option<&'a V>)> = Vec::new();
    proof {
        assert(pairs.deep_view() =~= Seq::<(Option<V::V>, Option<V::V>)>::empty());
        assert(pairs.deep_view() + pair_olds::<K, V>(oldv, rem_of(newv, taken@), 0).0
            =~= pair_olds::<K, V>(oldv, rem0, 0).0);
    }
    let mut oi: usize = 0;
    while oi < old.len()
        invariant
            oi <= old@.len(),
            taken@.len() == new@.len(),
            pair_olds::<K, V>(oldv, rem0, 0).0 == pairs.deep_view() + pair_olds::<K, V>(
                oldv,
                rem_of(newv, taken@),
                oi as int,
            ).0,
            pair_olds::<K, V>(oldv, rem0, 0).1 == pair_olds::<K, V>(
                oldv,
                rem_of(newv, taken@),
                oi as int,
            ).1,
            forall|t: int|
                0 <= t < pairs.deep_view().len() ==> ((#[trigger] pairs.deep_view()[t]).0 matches
                Some(x) ==> oldv.contains(x)) && (pairs.deep_view()[t].1 matches Some(y)
                    ==> newv.contains(y)),
        decreases old@.len() - oi,
    {
        let ghost remc = rem_of(newv, taken@);
        let found = find_match::<K, V>(&old[oi], new, &taken);
        match found {
            Some(jj) => {
                let ghost pre_taken = taken@;
                let ghost pre_pairs = pairs.deep_view();
                pairs.push((Some(&old[oi]), Some(&new[jj])));
                taken.set(jj, true);
                proof {
                    let p = (Some(oldv[oi as int]), Some(newv[jj as int]));
                    assert(taken@ =~= pre_taken.update(jj as int, true));
                    assert(rem_of(newv, taken@) =~= remc.update(jj as int, None::<V::V>));
                    assert(pairs.deep_view() =~= pre_pairs.push(p));
                    assert(match_from::<K, V>(remc, V::vkey(oldv[oi as int]), 0) == Some(
                        jj as int,
                    ));
                    assert(remc[jj as int] == Some(newv[jj as int]));
                    let rest = pair_olds::<K, V>(
                        oldv,
                        remc.update(jj as int, None::<V::V>),
                        oi + 1,
                    ).0;
                    assert(pair_olds::<K, V>(oldv, remc, oi as int).0 == seq![p] + rest);
                    assert(pair_olds::<K, V>(oldv, remc, oi as int).1 == pair_olds::<K, V>(
                        oldv,
                        remc.update(jj as int, None::<V::V>),
                        oi + 1,
                    ).1);
                    assert(pre_pairs + (seq![p] + rest) =~= pre_pairs.push(p) + rest);
                    assert(newv.contains(newv[jj as int]));
                    assert(oldv.contains(oldv[oi as int]));
                }
            },
            None => {
                let ghost pre_pairs = pairs.deep_view();
                pairs.push((Some(&old[oi]), None));
                proof {
                    let p = (Some(oldv[oi as int]), None::<V::V>);
                    assert(pairs.deep_view() =~= pre_pairs.push(p));
                    assert(match_from::<K, V>(remc, V::vkey(oldv[oi as int]), 0) is None);
                    let rest = pair_olds::<K, V>(oldv, remc, oi + 1).0;
                    assert(pair_olds::<K, V>(oldv, remc, oi as int).0 == seq![p] + rest);
                    assert(pair_olds::<K, V>(oldv, remc, oi as int).1 == pair_olds::<K, V>(
                        oldv,
                        remc,
                        oi + 1,
                    ).1);
                    assert(pre_pairs + (seq![p] + rest) =~= pre_pairs.push(p) + rest);
                    assert(oldv.contains(oldv[oi as int]));
                }
            },
        }
        oi += 1;
    }
    let ghost rem_end = rem_of(newv, taken@);
    proof {
        assert(pair_olds::<K, V>(oldv, rem_end, old@.len() as int).0 =~= Seq::<
            (Option<V::V>, Option<V::V>),
        >::empty());
        assert(pairs.deep_view() + Seq::<(Option<V::V>, Option<V::V>)>::empty()
            =~= pairs.deep_view());
        assert(pair_olds::<K, V>(oldv, rem0, 0).0 == pairs.deep_view());
        assert(pair_olds::<K, V>(oldv, rem0, 0).1 == rem_end);
        assert(rem_end.subrange(0, rem_end.len() as int) =~= rem_end);
    }
    let mut j2: usize = 0;
    while j2 < new.len()
        invariant
            j2 <= new@.len(),
            taken@.len() == new@.len(),
            rem_end == rem_of(newv, taken@),
            pairs.deep_view() + leftovers(rem_end.subrange(j2 as int, rem_end.len() as int))
                == pair_spec::<K, V>(oldv, newv),
            forall|t: int|
                0 <= t < pairs.deep_view().len() ==> ((#[trigger] pairs.deep_view()[t]).0 matches
                Some(x) ==> oldv.contains(x)) && (pairs.deep_view()[t].1 matches Some(y)
                    ==> newv.contains(y)),
        decreases new@.len() - j2,
    {
        let ghost tail = rem_end.subrange(j2 as int, rem_end.len() as int);
        proof {
            assert(tail.subrange(1, tail.len() as int) =~= rem_end.subrange(
                j2 + 1,
                rem_end.len() as int,
            ));
        }
        if !taken[j2] {
            let ghost pre_pairs = pairs.deep_view();
            pairs.push((None, Some(&new[j2])));
            proof {
                let p = (None::<V::V>, Some(newv[j2 as int]));
                assert(tail[0] == Some(newv[j2 as int]));
                assert(pairs.deep_view() =~= pre_pairs.push(p));
                let rest = leftovers(rem_end.subrange(j2 + 1, rem_end.len() as int));
                assert(leftovers(tail) == seq![p] + rest);
                assert(pre_pairs + (seq![p] + rest) =~= pre_pairs.push(p) + rest);
                assert(newv.contains(newv[j2 as int]));
            }
        } else {
            proof {
                assert(tail[0] is None);
            }
        }
        j2 += 1;
    }
    proof {
        assert(leftovers(rem_end.subrange(new@.len() as int, rem_end.len() as int)) =~= Seq::<
            (Option<V::V>, Option<V::V>),
        >::empty());
        assert(pairs.deep_view() + Seq::<(Option<V::V>, Option<V::V>)>::empty()
            =~= pairs.deep_view());
    }
    pairs
}

} // verus!

verus! {

/// Every detected difference between two gradebook snapshots.
#[derive(Debug)]
pub struct Changeset {
    pub old: Gradebook,
    pub new: Gradebook,
    pub changes: Vec<CourseChanges>,
}

/// The differences found in one paired course.
#[derive(Debug)]
pub struct CourseChanges {
    pub old: Option<Course>,
    pub new: Option<Course>,
    pub assignment_changes: Option<Vec<AssignmentChanges>>,
    pub changes: Option<Vec<CourseChange>>,
}

/// One course-level difference.
#[derive(Debug)]
pub enum CourseChange {
    Added,
    Dropped,
    CalculatedGradeChange { old: String, new: String },
    PeriodChange { old: i8, new: i8 },
    StaffChange { old: String, new: String },
    StaffEmailChange { old: String, new: String },
}

/// The differences found in one paired assignment.
#[derive(Debug)]
pub struct AssignmentChanges {
    pub old: Option<Assignment>,
    pub new: Option<Assignment>,
    pub changes: Vec<AssignmentChange>,
}

/// One assignment-level difference.
#[derive(Debug)]
pub enum AssignmentChange {
    Added,
    DateChange { old: Date, new: Date },
    Removed,
    DueDateChange { old: Date, new: Date },
    NotesChange { old: String, new: String },
    PointsChange { old: AssignmentPoints, new: AssignmentPoints },
    ScoreChange { old: AssignmentScore, new: AssignmentScore },
    ScoreTypeChange { old: String, new: String },
    TitleChange { old: String, new: String },
}

pub struct ChangesetV {
    pub old: GradebookV,
    pub new: GradebookV,
    pub changes: Seq<CourseChangesV>,
}

pub struct CourseChangesV {
    pub old: Option<CourseV>,
    pub new: Option<CourseV>,
    pub assignment_changes: Option<Seq<AssignmentChangesV>>,
    pub changes: Option<Seq<CourseChangeV>>,
}

pub enum CourseChangeV {
    Added,
    Dropped,
    CalculatedGradeChange { old: Seq<char>, new: Seq<char> },
    PeriodChange { old: i8, new: i8 },
    StaffChange { old: Seq<char>, new: Seq<char> },
    StaffEmailChange { old: Seq<char>, new: Seq<char> },
}

pub struct AssignmentChangesV {
    pub old: Option<AssignmentV>,
    pub new: Option<AssignmentV>,
    pub changes: Seq<AssignmentChangeV>,
}

pub enum AssignmentChangeV {
    Added,
    DateChange { old: Date, new: Date },
    Removed,
    DueDateChange { old: Date, new: Date },
    NotesChange { old: Seq<char>, new: Seq<char> },
    PointsChange { old: AssignmentPointsV, new: AssignmentPointsV },
    ScoreChange { old: AssignmentScoreV, new: AssignmentScoreV },
    ScoreTypeChange { old: Seq<char>, new: Seq<char> },
    TitleChange { old: Seq<char>, new: Seq<char> },
}

impl DeepView for Changeset {
    type V = ChangesetV;

    open spec fn deep_view(&self) -> ChangesetV {
        ChangesetV {
            old: self.old.deep_view(),
            new: self.new.deep_view(),
            changes: self.changes.deep_view(),
        }
    }
}

impl DeepView for CourseChanges {
    type V = CourseChangesV;

    open spec fn deep_view(&self) -> CourseChangesV {
        CourseChangesV {
            old: self.old.deep_view(),
            new: self.new.deep_view(),
            assignment_changes: self.assignment_changes.deep_view(),
            changes: self.changes.deep_view(),
        }
    }
}

impl DeepView for CourseChange {
    type V = CourseChangeV;

    open spec fn deep_view(&self) -> CourseChangeV {
        match self {
            CourseChange::Added => CourseChangeV::Added,
            CourseChange::Dropped => CourseChangeV::Dropped,
            CourseChange::CalculatedGradeChange { old, new } => CourseChangeV::CalculatedGradeChange {
                old: old@,
                new: new@,
            },
            CourseChange::PeriodChange { old, new } => CourseChangeV::PeriodChange {
                old: *old,
                new: *new,
            },
            CourseChange::StaffChange { old, new } => CourseChangeV::StaffChange {
                old: old@,
                new: new@,
            },
            CourseChange::StaffEmailChange { old, new } => CourseChangeV::StaffEmailChange {
                old: old@,
                new: new@,
            },
        }
    }
}

impl DeepView for AssignmentChanges {
    type V = AssignmentChangesV;

    open spec fn deep_view(&self) -> AssignmentChangesV {
        AssignmentChangesV {
            old: self.old.deep_view(),
            new: self.new.deep_view(),
            changes: self.changes.deep_view(),
        }
    }
}

impl DeepView for AssignmentChange {
    type V = AssignmentChangeV;

    open spec fn deep_view(&self) -> AssignmentChangeV {
        match self {
            AssignmentChange::Added => AssignmentChangeV::Added,
            AssignmentChange::DateChange { old, new } => AssignmentChangeV::DateChange {
                old: *old,
                new: *new,
            },
            AssignmentChange::Removed => AssignmentChangeV::Removed,
            AssignmentChange::DueDateChange { old, new } => AssignmentChangeV::DueDateChange {
                old: *old,
                new: *new,
            },
            AssignmentChange::NotesChange { old, new } => AssignmentChangeV::NotesChange {
                old: old@,
                new: new@,
            },
            AssignmentChange::PointsChange { old, new } => AssignmentChangeV::PointsChange {
                old: old.deep_view(),
                new: new.deep_view(),
            },
            AssignmentChange::ScoreChange { old, new } => AssignmentChangeV::ScoreChange {
                old: old.deep_view(),
                new: new.deep_view(),
            },
            AssignmentChange::ScoreTypeChange { old, new } => AssignmentChangeV::ScoreTypeChange {
                old: old@,
                new: new@,
            },
            AssignmentChange::TitleChange { old, new } => AssignmentChangeV::TitleChange {
                old: old@,
                new: new@,
            },
        }
    }
}

/// The field-by-field differences of one assignment, in a fixed order:
/// date, due date, notes, points, score, score type, title.
pub open spec fn assignment_changes_list(o: AssignmentV, n: AssignmentV) -> Seq<
    AssignmentChangeV,
> {
    let s0 = Seq::<AssignmentChangeV>::empty();
    let s1 = if o.date != n.date {
        s0.push(AssignmentChangeV::DateChange { old: o.date, new: n.date })
    } else {
        s0
    };
    let s2 = if o.due_date != n.due_date {
        s1.push(AssignmentChangeV::DueDateChange { old: o.due_date, new: n.due_date })
    } else {
        s1
    };
    let s3 = if o.notes != n.notes {
        s2.push(AssignmentChangeV::NotesChange { old: o.notes, new: n.notes })
    } else {
        s2
    };
    let s4 = if o.points != n.points {
        s3.push(AssignmentChangeV::PointsChange { old: o.points, new: n.points })
    } else {
        s3
    };
    let s5 = if o.score != n.score {
        s4.push(AssignmentChangeV::ScoreChange { old: o.score, new: n.score })
    } else {
        s4
    };
    let s6 = if o.score_type != n.score_type {
        s5.push(AssignmentChangeV::ScoreTypeChange { old: o.score_type, new: n.score_type })
    } else {
        s5
    };
    if o.measure != n.measure {
        s6.push(AssignmentChangeV::TitleChange { old: o.measure, new: n.measure })
    } else {
        s6
    }
}

/// What diffing two paired assignments yields: `None` when nothing
/// differs.
pub open spec fn assignment_changes_spec(o: AssignmentV, n: AssignmentV) -> Option<
    AssignmentChangesV,
> {
    let cs = assignment_changes_list(o, n);
    if cs.len() == 0 {
        None
    } else {
        Some(AssignmentChangesV { old: Some(o), new: Some(n), changes: cs })
    }
}

/// The assignment-level entries of a changeset: one entry per pair that
/// differs, plus added and removed assignments.
pub open spec fn assignment_diffs(pairs: Seq<(Option<AssignmentV>, Option<AssignmentV>)>) -> Seq<
    AssignmentChangesV,
>
    decreases pairs.len(),
{
    if pairs.len() == 0 {
        Seq::empty()
    } else {
        let rest = assignment_diffs(pairs.subrange(1, pairs.len() as int));
        match pairs[0] {
            (Some(a), Some(b)) => match assignment_changes_spec(a, b) {
                Some(c) => seq![c] + rest,
                None => rest,
            },
            (Some(a), None) => seq![
                AssignmentChangesV {
                    old: Some(a),
                    new: None,
                    changes: seq![AssignmentChangeV::Removed],
                },
            ] + rest,
            (None, Some(b)) => seq![
                AssignmentChangesV {
                    old: None,
                    new: Some(b),
                    changes: seq![AssignmentChangeV::Added],
                },
            ] + rest,
            (None, None) => rest,
        }
    }
}

/// The course-level scalar differences, in a fixed order: period, staff,
/// staff email, then the overall calculated grade of the first mark.
pub open spec fn course_changes_list(o: CourseV, n: CourseV) -> Seq<CourseChangeV> {
    let s0 = Seq::<CourseChangeV>::empty();
    let s1 = if o.period != n.period {
        s0.push(CourseChangeV::PeriodChange { old: o.period, new: n.period })
    } else {
        s0
    };
    let s2 = if o.staff != n.staff {
        s1.push(CourseChangeV::StaffChange { old: o.staff, new: n.staff })
    } else {
        s1
    };
    let s3 = if o.staff_email != n.staff_email {
        s2.push(CourseChangeV::StaffEmailChange { old: o.staff_email, new: n.staff_email })
    } else {
        s2
    };
    if o.marks[0].calculated_score_string != n.marks[0].calculated_score_string {
        s3.push(
            CourseChangeV::CalculatedGradeChange {
                old: o.marks[0].calculated_score_string,
                new: n.marks[0].calculated_score_string,
            },
        )
    } else {
        s3
    }
}

/// What diffing one course pair yields: a dropped or added course carries
/// that single tag; a matched pair carries its differing fields and its
/// assignment diffs, or nothing at all when the two sides agree.
pub open spec fn course_changes_spec(o: Option<CourseV>, n: Option<CourseV>) -> Option<
    CourseChangesV,
> {
    match (o, n) {
        (Some(c1), Some(c2)) => {
            let changes = course_changes_list(c1, c2);
            let acs = assignment_diffs(
                pair_spec::<Seq<char>, Assignment>(c1.marks[0].assignments, c2.marks[0].assignments),
            );
            if changes.len() == 0 && acs.len() == 0 {
                None
            } else {
                Some(
                    CourseChangesV {
                        old: Some(c1),
                        new: Some(c2),
                        assignment_changes: if acs.len() == 0 {
                            None
                        } else {
                            Some(acs)
                        },
                        changes: if changes.len() == 0 {
                            None
                        } else {
                            Some(changes)
                        },
                    },
                )
            }
        },
        (Some(c1), None) => Some(
            CourseChangesV {
                old: Some(c1),
                new: None,
                assignment_changes: None,
                changes: Some(seq![CourseChangeV::Dropped]),
            },
        ),
        (None, Some(c2)) => Some(
            CourseChangesV {
                old: None,
                new: Some(c2),
                assignment_changes: None,
                changes: Some(seq![CourseChangeV::Added]),
            },
        ),
        (None, None) => None,
    }
}

/// The course-level entries of a changeset, one per pair that differs.
pub open spec fn course_diffs(pairs: Seq<(Option<CourseV>, Option<CourseV>)>) -> Seq<
    CourseChangesV,
>
    decreases pairs.len(),
{
    if pairs.len() == 0 {
        Seq::empty()
    } else {
        let rest = course_diffs(pairs.subrange(1, pairs.len() as int));
        match course_changes_spec(pairs[0].0, pairs[0].1) {
            Some(c) => seq![c] + rest,
            None => rest,
        }
    }
}

/// What diffing two gradebooks yields: `None` when no course pair differs.
pub open spec fn changeset_spec(o: GradebookV, n: GradebookV) -> Option<ChangesetV> {
    let cds = course_diffs(pair_spec::<CourseTitleV, Course>(o.courses, n.courses));
    if cds.len() == 0 {
        None
    } else {
        Some(ChangesetV { old: o, new: n, changes: cds })
    }
}

} // verus!

verus! {

impl AssignmentChanges {
    /// Diffs one paired assignment field by field; `None` when nothing
    /// differs.
    pub fn diff(old: &Assignment, new: &Assignment) -> (r: Option<AssignmentChanges>)
        ensures
            r.deep_view() == assignment_changes_spec(old.deep_view(), new.deep_view()),
    {
        let ghost o = old.deep_view();
        let ghost n = new.deep_view();
        let mut changes: Vec<AssignmentChange> = Vec::new();
        let ghost mut gl = Seq::<AssignmentChangeV>::empty();
        proof {
            assert(changes.deep_view() =~= gl);
        }
        if !(old.date == new.date) {
            changes.push(AssignmentChange::DateChange { old: old.date, new: new.date });
            proof {
                gl = gl.push(AssignmentChangeV::DateChange { old: o.date, new: n.date });
                assert(changes.deep_view() =~= gl);
            }
        }
        if !(old.due_date == new.due_date) {
            changes.push(AssignmentChange::DueDateChange { old: old.due_date, new: new.due_date });
            proof {
                gl = gl.push(AssignmentChangeV::DueDateChange { old: o.due_date, new: n.due_date });
                assert(changes.deep_view() =~= gl);
            }
        }
        if !(old.notes == new.notes) {
            changes.push(
                AssignmentChange::NotesChange { old: old.notes.clone(), new: new.notes.clone() },
            );
            proof {
                gl = gl.push(AssignmentChangeV::NotesChange { old: o.notes, new: n.notes });
                assert(changes.deep_view() =~= gl);
            }
        }
        if !(old.points == new.points) {
            changes.push(
                AssignmentChange::PointsChange { old: old.points.clone(), new: new.points.clone() },
            );
            proof {
                gl = gl.push(AssignmentChangeV::PointsChange { old: o.points, new: n.points });
                assert(changes.deep_view() =~= gl);
            }
        }
        if !(old.score == new.score) {
            changes.push(
                AssignmentChange::ScoreChange { old: old.score.clone(), new: new.score.clone() },
            );
            proof {
                gl = gl.push(AssignmentChangeV::ScoreChange { old: o.score, new: n.score });
                assert(changes.deep_view() =~= gl);
            }
        }
        if !(old.score_type == new.score_type) {
            changes.push(
                AssignmentChange::ScoreTypeChange {
                    old: old.score_type.clone(),
                    new: new.score_type.clone(),
                },
            );
            proof {
                gl = gl.push(
                    AssignmentChangeV::ScoreTypeChange { old: o.score_type, new: n.score_type },
                );
                assert(changes.deep_view() =~= gl);
            }
        }
        if !(old.measure == new.measure) {
            changes.push(
                AssignmentChange::TitleChange {
                    old: old.measure.clone(),
                    new: new.measure.clone(),
                },
            );
            proof {
                gl = gl.push(AssignmentChangeV::TitleChange { old: o.measure, new: n.measure });
                assert(changes.deep_view() =~= gl);
            }
        }
        proof {
            assert(gl == assignment_changes_list(o, n));
        }
        if changes.len() == 0 {
            None
        } else {
            Some(
                AssignmentChanges {
                    old: Some(old.clone()),
                    new: Some(new.clone()),
                    changes,
                },
            )
        }
    }
}

/// Turns paired assignments into changeset entries: one entry per pair
/// that differs, plus added and removed assignments.
#[verifier::loop_isolation(false)]
fn diff_assignment_pairs(pairs: &Vec<(Option<&Assignment>, Option<&Assignment>)>) -> (r: Vec<
    AssignmentChanges,
>)
    ensures
        r.deep_view() == assignment_diffs(pairs.deep_view()),
{
    let ghost pv = pairs.deep_view();
    let mut acc: Vec<AssignmentChanges> = Vec::new();
    proof {
        assert(acc.deep_view() =~= Seq::<AssignmentChangesV>::empty());
        assert(pv.subrange(0, pv.len() as int) =~= pv);
    }
    let mut t: usize = 0;
    while t < pairs.len()
        invariant
            t <= pairs@.len(),
            acc.deep_view() + assignment_diffs(pv.subrange(t as int, pv.len() as int))
                == assignment_diffs(pv),
        decreases pairs@.len() - t,
    {
        let ghost tail = pv.subrange(t as int, pv.len() as int);
        proof {
            assert(tail.subrange(1, tail.len() as int) =~= pv.subrange(
                t + 1,
                pv.len() as int,
            ));
        }
        let p = &pairs[t];
        match (p.0, p.1) {
            (Some(a), Some(b)) => {
                match AssignmentChanges::diff(a, b) {
                    Some(c) => {
                        let ghost pre = acc.deep_view();
                        let ghost e = c.deep_view();
                        acc.push(c);
                        proof {
                            assert(acc.deep_view() =~= pre.push(e));
                            let rest = assignment_diffs(tail.subrange(1, tail.len() as int));
                            assert(assignment_diffs(tail) == seq![e] + rest);
                            assert(pre + (seq![e] + rest) =~= pre.push(e) + rest);
                        }
                    },
                    None => {},
                }
            },
            (Some(a), None) => {
                let mut cs: Vec<AssignmentChange> = Vec::new();
                cs.push(AssignmentChange::Removed);
                proof {
                    assert(cs.deep_view() =~= seq![AssignmentChangeV::Removed]);
                }
                let entry = AssignmentChanges { old: Some((*a).clone()), new: None, changes: cs };
                let ghost pre = acc.deep_view();
                let ghost e = entry.deep_view();
                acc.push(entry);
                proof {
                    assert(acc.deep_view() =~= pre.push(e));
                    let rest = assignment_diffs(tail.subrange(1, tail.len() as int));
                    assert(assignment_diffs(tail) == seq![e] + rest);
                    assert(pre + (seq![e] + rest) =~= pre.push(e) + rest);
                }
            },
            (None, Some(b)) => {
                let mut cs: Vec<AssignmentChange> = Vec::new();
                cs.push(AssignmentChange::Added);
                proof {
                    assert(cs.deep_view() =~= seq![AssignmentChangeV::Added]);
                }
                let entry = AssignmentChanges { old: None, new: Some((*b).clone()), changes: cs };
                let ghost pre = acc.deep_view();
                let ghost e = entry.deep_view();
                acc.push(entry);
                proof {
                    assert(acc.deep_view() =~= pre.push(e));
                    let rest = assignment_diffs(tail.subrange(1, tail.len() as int));
                    assert(assignment_diffs(tail) == seq![e] + rest);
                    assert(pre + (seq![e] + rest) =~= pre.push(e) + rest);
                }
            },
            (None, None) => {},
        }
        t += 1;
    }
    proof {
        assert(pv.subrange(pv.len() as int, pv.len() as int) =~= Seq::<
            (Option<AssignmentV>, Option<AssignmentV>),
        >::empty());
        assert(acc.deep_view() + Seq::<AssignmentChangesV>::empty() =~= acc.deep_view());
    }
    acc
}

impl CourseChanges {
    /// Diffs one paired course: a dropped or added course yields that
    /// single tag, a matched pair yields its differing scalar fields and
    /// its assignment diffs, and `None` means the two sides agree.
    pub fn diff(old: Option<&Course>, new: Option<&Course>) -> (r: Option<CourseChanges>)
        requires
            old matches Some(c) ==> c.deep_view().marks.len() >= 1,
            new matches Some(c) ==> c.deep_view().marks.len() >= 1,
        ensures
            r.deep_view() == course_changes_spec(old.deep_view(), new.deep_view()),
    {
        match (old, new) {
            (Some(c1), Some(c2)) => {
                let ghost o = c1.deep_view();
                let ghost n = c2.deep_view();
                let mut changes: Vec<CourseChange> = Vec::new();
                let ghost mut gl = Seq::<CourseChangeV>::empty();
                proof {
                    assert(changes.deep_view() =~= gl);
                }
                if !(c1.period == c2.period) {
                    changes.push(CourseChange::PeriodChange { old: c1.period, new: c2.period });
                    proof {
                        gl = gl.push(CourseChangeV::PeriodChange { old: o.period, new: n.period });
                        assert(changes.deep_view() =~= gl);
                    }
                }
                if !(c1.staff == c2.staff) {
                    changes.push(
                        CourseChange::StaffChange { old: c1.staff.clone(), new: c2.staff.clone() },
                    );
                    proof {
                        gl = gl.push(CourseChangeV::StaffChange { old: o.staff, new: n.staff });
                        assert(changes.deep_view() =~= gl);
                    }
                }
                if !(c1.staff_email == c2.staff_email) {
                    changes.push(
                        CourseChange::StaffEmailChange {
                            old: c1.staff_email.clone(),
                            new: c2.staff_email.clone(),
                        },
                    );
                    proof {
                        gl = gl.push(
                            CourseChangeV::StaffEmailChange {
                                old: o.staff_email,
                                new: n.staff_email,
                            },
                        );
                        assert(changes.deep_view() =~= gl);
                    }
                }
                let g1 = c1.marks[0].calculated_grade();
                let g2 = c2.marks[0].calculated_grade();
                if !(g1 == g2) {
                    changes.push(CourseChange::CalculatedGradeChange { old: g1, new: g2 });
                    proof {
                        gl = gl.push(
                            CourseChangeV::CalculatedGradeChange {
                                old: o.marks[0].calculated_score_string,
                                new: n.marks[0].calculated_score_string,
                            },
                        );
                        assert(changes.deep_view() =~= gl);
                    }
                }
                proof {
                    assert(gl == course_changes_list(o, n));
                }
                let pairs = pair_values::<Seq<char>, Assignment>(
                    &c1.marks[0].assignments,
                    &c2.marks[0].assignments,
                );
                let acs = diff_assignment_pairs(&pairs);
                if changes.len() == 0 && acs.len() == 0 {
                    None
                } else {
                    Some(
                        CourseChanges {
                            old: Some((*c1).clone()),
                            new: Some((*c2).clone()),
                            assignment_changes: if acs.len() == 0 {
                                None
                            } else {
                                Some(acs)
                            },
                            changes: if changes.len() == 0 {
                                None
                            } else {
                                Some(changes)
                            },
                        },
                    )
                }
            },
            (Some(c1), None) => {
                let mut cs: Vec<CourseChange> = Vec::new();
                cs.push(CourseChange::Dropped);
                proof {
                    assert(cs.deep_view() =~= seq![CourseChangeV::Dropped]);
                }
                Some(
                    CourseChanges {
                        old: Some((*c1).clone()),
                        new: None,
                        assignment_changes: None,
                        changes: Some(cs),
                    },
                )
            },
            (None, Some(c2)) => {
                let mut cs: Vec<CourseChange> = Vec::new();
                cs.push(CourseChange::Added);
                proof {
                    assert(cs.deep_view() =~= seq![CourseChangeV::Added]);
                }
                Some(
                    CourseChanges {
                        old: None,
                        new: Some((*c2).clone()),
                        assignment_changes: None,
                        changes: Some(cs),
                    },
                )
            },
            (None, None) => None,
        }
    }
}

impl Changeset {
    /// Diffs two gradebook snapshots; `None` means no differences were
    /// found anywhere.
    #[verifier::loop_isolation(false)]
    pub fn diff(old: &Gradebook, new: &Gradebook) -> (r: Option<Changeset>)
        requires
            gradebook_wf(old.deep_view()),
            gradebook_wf(new.deep_view()),
        ensures
            r.deep_view() == changeset_spec(old.deep_view(), new.deep_view()),
    {
        let ghost o = old.deep_view();
        let ghost n = new.deep_view();
        let pairs = pair_values::<CourseTitleV, Course>(&old.courses, &new.courses);
        let ghost pv = pairs.deep_view();
        let mut ccs: Vec<CourseChanges> = Vec::new();
        proof {
            assert(ccs.deep_view() =~= Seq::<CourseChangesV>::empty());
            assert(pv.subrange(0, pv.len() as int) =~= pv);
        }
        let mut t: usize = 0;
        while t < pairs.len()
            invariant
                t <= pairs@.len(),
                ccs.deep_view() + course_diffs(pv.subrange(t as int, pv.len() as int))
                    == course_diffs(pv),
            decreases pairs@.len() - t,
        {
            let ghost tail = pv.subrange(t as int, pv.len() as int);
            proof {
                assert(tail.subrange(1, tail.len() as int) =~= pv.subrange(
                    t + 1,
                    pv.len() as int,
                ));
                match pv[t as int].0 {
                    Some(x) => {
                        assert(o.courses.contains(x));
                        let i = choose|i: int| 0 <= i < o.courses.len() && o.courses[i] == x;
                        assert(o.courses[i].marks.len() >= 1);
                    },
                    None => {},
                }
                match pv[t as int].1 {
                    Some(y) => {
                        assert(n.courses.contains(y));
                        let i = choose|i: int| 0 <= i < n.courses.len() && n.courses[i] == y;
                        assert(n.courses[i].marks.len() >= 1);
                    },
                    None => {},
                }
            }
            let p = &pairs[t];
            match CourseChanges::diff(p.0, p.1) {
                Some(c) => {
                    let ghost pre = ccs.deep_view();
                    let ghost e = c.deep_view();
                    ccs.push(c);
                    proof {
                        assert(ccs.deep_view() =~= pre.push(e));
                        let rest = course_diffs(tail.subrange(1, tail.len() as int));
                        assert(course_diffs(tail) == seq![e] + rest);
                        assert(pre + (seq![e] + rest) =~= pre.push(e) + rest);
                    }
                },
                None => {},
            }
            t += 1;
        }
        proof {
            assert(pv.subrange(pv.len() as int, pv.len() as int) =~= Seq::<
                (Option<CourseV>, Option<CourseV>),
            >::empty());
            assert(ccs.deep_view() + Seq::<CourseChangesV>::empty() =~= ccs.deep_view());
        }
        if ccs.len() == 0 {
            None
        } else {
            Some(Changeset { old: old.clone(), new: new.clone(), changes: ccs })
        }
    }
}

} // verus!

verus! {

// The pairing laws: pairing is a partition, and the differ's output
// follows from it.

/// The values sitting in the still-unclaimed slots, in order.
pub open spec fn somes<T>(rem: Seq<Option<T>>) -> Seq<T>
    decreases rem.len(),
{
    if rem.len() == 0 {
        Seq::empty()
    } else {
        match rem[0] {
            Some(x) => seq![x] + somes(rem.subrange(1, rem.len() as int)),
            None => somes(rem.subrange(1, rem.len() as int)),
        }
    }
}

/// The new elements that appear on the right of a pair, in order.
pub open spec fn rights_of<T>(pairs: Seq<(Option<T>, Option<T>)>) -> Seq<T>
    decreases pairs.len(),
{
    if pairs.len() == 0 {
        Seq::empty()
    } else {
        match pairs[0].1 {
            Some(y) => seq![y] + rights_of(pairs.subrange(1, pairs.len() as int)),
            None => rights_of(pairs.subrange(1, pairs.len() as int)),
        }
    }
}

proof fn lemma_match_from_props<K, V: Pairable<K>>(rem: Seq<Option<V::V>>, k: K, j: int)
    requires
        0 <= j,
    ensures
        match match_from::<K, V>(rem, k, j) {
            Some(p) => j <= p < rem.len() && (rem[p] matches Some(x) && V::vkey(x) == k),
            None => true,
        },
    decreases rem.len() - j,
{
    if j < rem.len() {
        lemma_match_from_props::<K, V>(rem, k, j + 1);
    }
}

proof fn lemma_somes_concat<T>(a: Seq<Option<T>>, b: Seq<Option<T>>)
    ensures
        somes(a + b) == somes(a) + somes(b),
    decreases a.len(),
{
    if a.len() == 0 {
        assert(a + b =~= b);
        assert(somes(a) + somes(b) =~= somes(b));
    } else {
        assert((a + b).subrange(1, (a + b).len() as int) =~= a.subrange(1, a.len() as int) + b);
        lemma_somes_concat(a.subrange(1, a.len() as int), b);
        assert((a + b)[0] == a[0]);
        match a[0] {
            Some(x) => {
                assert(seq![x] + (somes(a.subrange(1, a.len() as int)) + somes(b)) =~= (seq![x]
                    + somes(a.subrange(1, a.len() as int))) + somes(b));
            },
            None => {},
        }
    }
}

/// Blanking one claimed slot removes exactly that value from the unclaimed
/// multiset.
proof fn lemma_somes_update<T>(rem: Seq<Option<T>>, j: int, x: T)
    requires
        0 <= j < rem.len(),
        rem[j] == Some(x),
    ensures
        somes(rem).to_multiset() == somes(rem.update(j, None)).to_multiset().insert(x),
    decreases rem.len(),
{
    broadcast use vstd::seq_lib::group_to_multiset_ensures;

    let tail = rem.subrange(1, rem.len() as int);
    if j == 0 {
        assert(rem.update(0, None::<T>).subrange(1, rem.len() as int) =~= tail);
        assert(somes(rem) == seq![x] + somes(tail));
        assert(somes(rem.update(0, None::<T>)) == somes(tail));
        lemma_cons_multiset(x, somes(tail));
    } else {
        assert(rem.update(j, None::<T>)[0] == rem[0]);
        assert(rem.update(j, None::<T>).subrange(1, rem.len() as int) =~= tail.update(
            j - 1,
            None::<T>,
        ));
        lemma_somes_update(tail, j - 1, x);
        match rem[0] {
            Some(y) => {
                lemma_cons_multiset(y, somes(tail));
                lemma_cons_multiset(y, somes(tail.update(j - 1, None::<T>)));
            },
            None => {},
        }
    }
}

/// Prepending one element inserts it into the multiset.
proof fn lemma_cons_multiset<T>(x: T, s: Seq<T>)
    ensures
        (seq![x] + s).to_multiset() == s.to_multiset().insert(x),
    decreases s.len(),
{
    broadcast use vstd::seq_lib::group_to_multiset_ensures;

    if s.len() == 0 {
        assert(seq![x] + s =~= Seq::<T>::empty().push(x));
    } else {
        let s0 = s.drop_last();
        lemma_cons_multiset(x, s0);
        assert((seq![x] + s0).push(s.last()) =~= seq![x] + s);
        assert(s0.push(s.last()) =~= s);
        assert((seq![x] + s).to_multiset() =~= (seq![x] + s0).to_multiset().insert(s.last()));
        assert(s.to_multiset() =~= s0.to_multiset().insert(s.last()));
        assert(s0.to_multiset().insert(x).insert(s.last()) =~= s0.to_multiset().insert(
            s.last(),
        ).insert(x));
    }
}

} // verus!

verus! {

proof fn lemma_rights_concat<T>(a: Seq<(Option<T>, Option<T>)>, b: Seq<(Option<T>, Option<T>)>)
    ensures
        rights_of(a + b) == rights_of(a) + rights_of(b),
    decreases a.len(),
{
    if a.len() == 0 {
        assert(a + b =~= b);
        assert(rights_of(a) + rights_of(b) =~= rights_of(b));
    } else {
        assert((a + b).subrange(1, (a + b).len() as int) =~= a.subrange(1, a.len() as int) + b);
        lemma_rights_concat(a.subrange(1, a.len() as int), b);
        assert((a + b)[0] == a[0]);
        match a[0].1 {
            Some(y) => {
                assert(seq![y] + (rights_of(a.subrange(1, a.len() as int)) + rights_of(b))
                    =~= (seq![y] + rights_of(a.subrange(1, a.len() as int))) + rights_of(b));
            },
            None => {},
        }
    }
}

/// The unmatched tail pairs every unclaimed value once, in order, with no
/// old side.
proof fn lemma_leftovers_props<T>(rem: Seq<Option<T>>)
    ensures
        leftovers(rem).len() == somes(rem).len(),
        forall|t: int|
            0 <= t < leftovers(rem).len() ==> (#[trigger] leftovers(rem)[t]).0 is None
                && leftovers(rem)[t].1 == Some(somes(rem)[t]),
        rights_of(leftovers(rem)) == somes(rem),
    decreases rem.len(),
{
    if rem.len() > 0 {
        let tail = rem.subrange(1, rem.len() as int);
        lemma_leftovers_props(tail);
        match rem[0] {
            Some(x) => {
                assert(leftovers(rem) == seq![(None::<T>, Some(x))] + leftovers(tail));
                assert(somes(rem) == seq![x] + somes(tail));
                assert(rights_of(leftovers(rem)) == seq![x] + rights_of(leftovers(tail))) by {
                    assert((seq![(None::<T>, Some(x))] + leftovers(tail))[0] == (
                    None::<T>,
                    Some(x),
                    ));
                    assert((seq![(None::<T>, Some(x))] + leftovers(tail)).subrange(
                        1,
                        (seq![(None::<T>, Some(x))] + leftovers(tail)).len() as int,
                    ) =~= leftovers(tail));
                }
            },
            None => {},
        }
    }
}

/// Pairing the old elements yields one pair per old element, in order; a
/// matched right side carries the same key and comes out of the unclaimed
/// values, which it leaves exactly once.
proof fn lemma_pair_olds_props<K, V: Pairable<K>>(
    olds: Seq<V::V>,
    rem: Seq<Option<V::V>>,
    oi: int,
)
    requires
        0 <= oi <= olds.len(),
    ensures
        ({
            let pr = pair_olds::<K, V>(olds, rem, oi);
            &&& pr.0.len() == olds.len() - oi
            &&& forall|t: int|
                0 <= t < pr.0.len() ==> (#[trigger] pr.0[t]).0 == Some(olds[oi + t])
            &&& forall|t: int|
                0 <= t < pr.0.len() ==> ((#[trigger] pr.0[t]).1 matches Some(y) ==> V::vkey(y)
                    == V::vkey(olds[oi + t]))
            &&& rights_of(pr.0).to_multiset().add(somes(pr.1).to_multiset()) == somes(
                rem,
            ).to_multiset()
        }),
    decreases olds.len() - oi,
{
    broadcast use vstd::seq_lib::group_to_multiset_ensures;
    broadcast use vstd::multiset::group_multiset_axioms;

    let pr = pair_olds::<K, V>(olds, rem, oi);
    if oi >= olds.len() {
        assert(rights_of(pr.0).to_multiset().add(somes(pr.1).to_multiset()) =~= somes(
            rem,
        ).to_multiset());
    } else {
        let k = V::vkey(olds[oi]);
        lemma_match_from_props::<K, V>(rem, k, 0);
        match match_from::<K, V>(rem, k, 0) {
            Some(j) => {
                let x = match rem[j] {
                    Some(x) => x,
                    None => arbitrary(),
                };
                let rem2 = rem.update(j, None);
                lemma_pair_olds_props::<K, V>(olds, rem2, oi + 1);
                let pr2 = pair_olds::<K, V>(olds, rem2, oi + 1);
                let p = (Some(olds[oi]), Some(x));
                assert(pr.0 == seq![p] + pr2.0);
                assert(forall|t: int|
                    1 <= t < pr.0.len() ==> (#[trigger] pr.0[t]) == pr2.0[t - 1]);
                assert(pr.0[0] == p);
                assert(rights_of(pr.0) == seq![x] + rights_of(pr2.0)) by {
                    assert((seq![p] + pr2.0)[0] == p);
                    assert((seq![p] + pr2.0).subrange(1, (seq![p] + pr2.0).len() as int)
                        =~= pr2.0);
                }
                lemma_cons_multiset(x, rights_of(pr2.0));
                lemma_somes_update(rem, j, x);
                assert(rights_of(pr.0).to_multiset().add(somes(pr.1).to_multiset())
                    =~= somes(rem).to_multiset());
            },
            None => {
                lemma_pair_olds_props::<K, V>(olds, rem, oi + 1);
                let pr2 = pair_olds::<K, V>(olds, rem, oi + 1);
                let p = (Some(olds[oi]), None::<V::V>);
                assert(pr.0 == seq![p] + pr2.0);
                assert(forall|t: int|
                    1 <= t < pr.0.len() ==> (#[trigger] pr.0[t]) == pr2.0[t - 1]);
                assert(pr.0[0] == p);
                assert(rights_of(pr.0) == rights_of(pr2.0)) by {
                    assert((seq![p] + pr2.0)[0] == p);
                    assert((seq![p] + pr2.0).subrange(1, (seq![p] + pr2.0).len() as int)
                        =~= pr2.0);
                }
            },
        }
    }
}

proof fn lemma_somes_map<T>(s: Seq<T>)
    ensures
        somes(s.map_values(|x: T| Some(x))) == s,
    decreases s.len(),
{
    let m = s.map_values(|x: T| Some(x));
    if s.len() == 0 {
        assert(somes(m) =~= s);
    } else {
        let tail = s.subrange(1, s.len() as int);
        lemma_somes_map(tail);
        assert(m.subrange(1, m.len() as int) =~= tail.map_values(|x: T| Some(x)));
        assert(m[0] == Some(s[0]));
        assert(seq![s[0]] + tail =~= s);
    }
}

/// Pairing is a partition: every old element appears exactly once, in
/// order, as the left side of a pair; every further pair has no left side;
/// the right sides are exactly the new elements, each exactly once; and no
/// pair is empty on both sides.
pub proof fn lemma_pairing_partition<K, V: Pairable<K>>(olds: Seq<V::V>, news: Seq<V::V>)
    ensures
        ({
            let pairs = pair_spec::<K, V>(olds, news);
            &&& pairs.len() >= olds.len()
            &&& forall|i: int|
                0 <= i < olds.len() ==> (#[trigger] pairs[i]).0 == Some(olds[i])
            &&& forall|i: int|
                olds.len() <= i < pairs.len() ==> (#[trigger] pairs[i]).0 is None
            &&& rights_of(pairs).to_multiset() == news.to_multiset()
            &&& forall|i: int|
                0 <= i < pairs.len() ==> !((#[trigger] pairs[i]).0 is None && pairs[i].1 is None)
        }),
{
    broadcast use vstd::seq_lib::group_to_multiset_ensures;
    broadcast use vstd::multiset::group_multiset_axioms;

    let rem0 = news.map_values(|x: V::V| Some(x));
    lemma_somes_map(news);
    lemma_pair_olds_props::<K, V>(olds, rem0, 0);
    let pr = pair_olds::<K, V>(olds, rem0, 0);
    lemma_leftovers_props(pr.1);
    lemma_rights_concat(pr.0, leftovers(pr.1));
    let pairs = pair_spec::<K, V>(olds, news);
    assert(pairs == pr.0 + leftovers(pr.1));
    assert(forall|i: int|
        0 <= i < olds.len() ==> (#[trigger] pairs[i]) == pr.0[i]);
    assert(forall|i: int|
        olds.len() <= i < pairs.len() ==> (#[trigger] pairs[i]) == leftovers(pr.1)[i
            - olds.len()]);
    vstd::seq_lib::lemma_multiset_commutative(rights_of(pr.0), rights_of(leftovers(pr.1)));
    assert(rights_of(pairs).to_multiset() =~= news.to_multiset());
    assert forall|i: int|
        0 <= i < pairs.len() implies !((#[trigger] pairs[i]).0 is None && pairs[i].1
        is None) by {
        if i >= olds.len() {
            assert(pairs[i] == leftovers(pr.1)[i - olds.len()]);
            assert(leftovers(pr.1)[i - olds.len()].1 == Some(somes(pr.1)[i - olds.len()]));
        }
    }
}

} // verus!

verus! {

/// The identity pairing: each element paired with itself.
pub open spec fn self_pairs<T>(s: Seq<T>) -> Seq<(Option<T>, Option<T>)> {
    Seq::new(s.len(), |t: int| (Some(s[t]), Some(s[t])))
}

proof fn lemma_match_none_prefix<K, V: Pairable<K>>(
    rem: Seq<Option<V::V>>,
    k: K,
    j: int,
    p: int,
)
    requires
        0 <= j <= p <= rem.len(),
        forall|u: int| j <= u < p ==> (#[trigger] rem[u]) is None,
    ensures
        match_from::<K, V>(rem, k, j) == match_from::<K, V>(rem, k, p),
    decreases p - j,
{
    if j < p {
        lemma_match_none_prefix::<K, V>(rem, k, j + 1, p);
    }
}

/// Two equally long collections paired element by element, in place.
pub open spec fn aligned_pairs<T>(a: Seq<T>, b: Seq<T>) -> Seq<(Option<T>, Option<T>)> {
    Seq::new(a.len(), |t: int| (Some(a[t]), Some(b[t])))
}

/// When the collections carry the same keys position by position, each old
/// element matches the new element standing at its own position.
proof fn lemma_pair_olds_aligned<K, V: Pairable<K>>(olds: Seq<V::V>, news: Seq<V::V>, oi: int)
    requires
        0 <= oi <= olds.len(),
        olds.len() == news.len(),
        forall|t: int|
            0 <= t < olds.len() ==> V::vkey(#[trigger] olds[t]) == V::vkey(news[t]),
    ensures
        ({
            let rem = Seq::new(news.len(), |j: int| if j < oi { None } else { Some(news[j]) });
            let pr = pair_olds::<K, V>(olds, rem, oi);
            &&& pr.0 == Seq::new(
                (olds.len() - oi) as nat,
                |t: int| (Some(olds[oi + t]), Some(news[oi + t])),
            )
            &&& pr.1 == Seq::new(news.len(), |j: int| None::<V::V>)
        }),
    decreases olds.len() - oi,
{
    let rem = Seq::new(news.len(), |j: int| if j < oi { None } else { Some(news[j]) });
    let pr = pair_olds::<K, V>(olds, rem, oi);
    if oi >= olds.len() {
        assert(rem =~= Seq::new(news.len(), |j: int| None::<V::V>));
        assert(pr.0 =~= Seq::new(
            (olds.len() - oi) as nat,
            |t: int| (Some(olds[oi + t]), Some(news[oi + t])),
        ));
    } else {
        let k = V::vkey(olds[oi]);
        lemma_match_none_prefix::<K, V>(rem, k, 0, oi);
        assert(rem[oi] == Some(news[oi]));
        assert(match_from::<K, V>(rem, k, oi) == Some(oi));
        let rem2 = Seq::new(news.len(), |j: int| if j < oi + 1 { None } else { Some(news[j]) });
        assert(rem.update(oi, None::<V::V>) =~= rem2);
        lemma_pair_olds_aligned::<K, V>(olds, news, oi + 1);
        let pr2 = pair_olds::<K, V>(olds, rem2, oi + 1);
        assert(pr.0 == seq![(Some(olds[oi]), Some(news[oi]))] + pr2.0);
        assert(pr.0 =~= Seq::new(
            (olds.len() - oi) as nat,
            |t: int| (Some(olds[oi + t]), Some(news[oi + t])),
        ));
    }
}

/// Pairing two collections that carry the same keys position by position
/// yields the element-by-element pairing.
pub proof fn lemma_pair_aligned<K, V: Pairable<K>>(olds: Seq<V::V>, news: Seq<V::V>)
    requires
        olds.len() == news.len(),
        forall|t: int|
            0 <= t < olds.len() ==> V::vkey(#[trigger] olds[t]) == V::vkey(news[t]),
    ensures
        pair_spec::<K, V>(olds, news) == aligned_pairs(olds, news),
{
    lemma_pair_olds_aligned::<K, V>(olds, news, 0);
    let rem0 = Seq::new(news.len(), |j: int| if j < 0 { None } else { Some(news[j]) });
    assert(news.map_values(|x: V::V| Some(x)) =~= rem0);
    let pr = pair_olds::<K, V>(olds, rem0, 0);
    assert(pr.0 =~= aligned_pairs(olds, news));
    lemma_leftovers_props(pr.1);
    assert(somes(pr.1) =~= Seq::<V::V>::empty()) by {
        lemma_somes_all_none(pr.1);
    }
    assert(leftovers(pr.1) =~= Seq::<(Option<V::V>, Option<V::V>)>::empty());
    assert(pair_spec::<K, V>(olds, news) =~= aligned_pairs(olds, news));
}

/// Pairing a collection with itself yields the identity pairing.
pub proof fn lemma_pair_self<K, V: Pairable<K>>(s: Seq<V::V>)
    ensures
        pair_spec::<K, V>(s, s) == self_pairs(s),
{
    lemma_pair_aligned::<K, V>(s, s);
    assert(self_pairs(s) =~= aligned_pairs(s, s));
}

proof fn lemma_somes_all_none<T>(rem: Seq<Option<T>>)
    requires
        forall|j: int| 0 <= j < rem.len() ==> (#[trigger] rem[j]) is None,
    ensures
        somes(rem).len() == 0,
    decreases rem.len(),
{
    if rem.len() > 0 {
        lemma_somes_all_none(rem.subrange(1, rem.len() as int));
    }
}

proof fn lemma_assignment_diffs_self(s: Seq<AssignmentV>)
    ensures
        assignment_diffs(self_pairs(s)) == Seq::<AssignmentChangesV>::empty(),
    decreases s.len(),
{
    let ps = self_pairs(s);
    if s.len() > 0 {
        assert(ps.subrange(1, ps.len() as int) =~= self_pairs(s.subrange(1, s.len() as int)));
        lemma_assignment_diffs_self(s.subrange(1, s.len() as int));
        assert(assignment_changes_list(s[0], s[0]) == Seq::<AssignmentChangeV>::empty());
    } else {
        assert(ps.len() == 0);
    }
}

proof fn lemma_course_diffs_self(s: Seq<CourseV>)
    ensures
        course_diffs(self_pairs(s)) == Seq::<CourseChangesV>::empty(),
    decreases s.len(),
{
    let ps = self_pairs(s);
    if s.len() > 0 {
        assert(ps.subrange(1, ps.len() as int) =~= self_pairs(s.subrange(1, s.len() as int)));
        lemma_course_diffs_self(s.subrange(1, s.len() as int));
        let c = s[0];
        assert(course_changes_list(c, c) == Seq::<CourseChangeV>::empty());
        lemma_pair_self::<Seq<char>, Assignment>(c.marks[0].assignments);
        lemma_assignment_diffs_self(c.marks[0].assignments);
        assert(course_changes_spec(ps[0].0, ps[0].1) is None);
    } else {
        assert(ps.len() == 0);
    }
}

/// Diff emptiness: diffing a snapshot against itself yields no changeset.
pub proof fn lemma_changeset_self(g: GradebookV)
    ensures
        changeset_spec(g, g) is None,
{
    lemma_pair_self::<CourseTitleV, Course>(g.courses);
    lemma_course_diffs_self(g.courses);
}

} // verus!

verus! {

proof fn lemma_rights_contains_at<T>(pairs: Seq<(Option<T>, Option<T>)>, i: int, y: T)
    requires
        0 <= i < pairs.len(),
        pairs[i].1 == Some(y),
    ensures
        rights_of(pairs).contains(y),
    decreases pairs.len(),
{
    let tail = pairs.subrange(1, pairs.len() as int);
    if i == 0 {
        assert(rights_of(pairs)[0] == y);
    } else {
        lemma_rights_contains_at(tail, i - 1, y);
        let w = choose|w: int| 0 <= w < rights_of(tail).len() && rights_of(tail)[w] == y;
        match pairs[0].1 {
            Some(z) => {
                assert(rights_of(pairs)[w + 1] == y);
            },
            None => {
                assert(rights_of(pairs)[w] == y);
            },
        }
    }
}

/// The matched right side of a pair carries the old side's key and comes
/// from the new collection.
pub proof fn lemma_pairing_keys<K, V: Pairable<K>>(olds: Seq<V::V>, news: Seq<V::V>)
    ensures
        ({
            let pairs = pair_spec::<K, V>(olds, news);
            &&& forall|i: int|
                0 <= i < olds.len() ==> ((#[trigger] pairs[i]).1 matches Some(y) ==> V::vkey(y)
                    == V::vkey(olds[i]))
            &&& forall|i: int|
                0 <= i < pairs.len() ==> ((#[trigger] pairs[i]).1 matches Some(y)
                    ==> news.contains(y))
        }),
{
    broadcast use vstd::seq_lib::group_to_multiset_ensures;

    let rem0 = news.map_values(|x: V::V| Some(x));
    lemma_somes_map(news);
    lemma_pair_olds_props::<K, V>(olds, rem0, 0);
    lemma_pairing_partition::<K, V>(olds, news);
    let pr = pair_olds::<K, V>(olds, rem0, 0);
    let pairs = pair_spec::<K, V>(olds, news);
    assert(pairs == pr.0 + leftovers(pr.1));
    assert(forall|i: int| 0 <= i < olds.len() ==> (#[trigger] pairs[i]) == pr.0[i]);
    assert forall|i: int|
        0 <= i < pairs.len() implies ((#[trigger] pairs[i]).1 matches Some(y)
        ==> news.contains(y)) by {
        match pairs[i].1 {
            Some(y) => {
                lemma_rights_contains_at(pairs, i, y);
                assert(rights_of(pairs).to_multiset().count(y) > 0);
                assert(news.to_multiset().count(y) > 0);
            },
            None => {},
        }
    }
}

/// Whether one changeset entry carries a course with the given title.
pub open spec fn mentions_title(e: CourseChangesV, t: CourseTitleV) -> bool {
    ||| (e.old matches Some(c) && c.title == t)
    ||| (e.new matches Some(c) && c.title == t)
}

/// How many changeset entries carry a course with the given title.
pub open spec fn count_title(cs: Seq<CourseChangesV>, t: CourseTitleV) -> int
    decreases cs.len(),
{
    if cs.len() == 0 {
        0
    } else {
        (if mentions_title(cs[0], t) {
            1int
        } else {
            0int
        }) + count_title(cs.subrange(1, cs.len() as int), t)
    }
}

/// Whether one course pair carries a course with the given title.
pub open spec fn pair_mentions(p: (Option<CourseV>, Option<CourseV>), t: CourseTitleV) -> bool {
    ||| (p.0 matches Some(c) && c.title == t)
    ||| (p.1 matches Some(c) && c.title == t)
}

/// How many course pairs carry a course with the given title.
pub open spec fn count_pair_title(
    ps: Seq<(Option<CourseV>, Option<CourseV>)>,
    t: CourseTitleV,
) -> int
    decreases ps.len(),
{
    if ps.len() == 0 {
        0
    } else {
        (if pair_mentions(ps[0], t) {
            1int
        } else {
            0int
        }) + count_pair_title(ps.subrange(1, ps.len() as int), t)
    }
}

/// A pair carrying the title only on its old side, the new side absent.
pub open spec fn dropped_pair(p: (Option<CourseV>, Option<CourseV>), t: CourseTitleV) -> bool {
    (p.0 matches Some(c) && c.title == t) && p.1 is None
}

/// A pair carrying the title only on its new side, the old side absent.
pub open spec fn added_pair(p: (Option<CourseV>, Option<CourseV>), t: CourseTitleV) -> bool {
    (p.1 matches Some(c) && c.title == t) && p.0 is None
}

/// A changeset entry that records exactly a dropped course of this title.
pub open spec fn dropped_entry(e: CourseChangesV, t: CourseTitleV) -> bool {
    &&& e.old matches Some(c) && c.title == t
    &&& e.new is None
    &&& e.assignment_changes is None
    &&& e.changes == Some(seq![CourseChangeV::Dropped])
}

/// A changeset entry that records exactly an added course of this title.
pub open spec fn added_entry(e: CourseChangesV, t: CourseTitleV) -> bool {
    &&& e.new matches Some(c) && c.title == t
    &&& e.old is None
    &&& e.assignment_changes is None
    &&& e.changes == Some(seq![CourseChangeV::Added])
}

/// When every pair carrying the title is a plain dropped pair (or, with
/// `dropped` false, a plain added pair), the changeset carries the title
/// exactly as often, and each carrying entry records exactly that drop
/// (or addition).
proof fn lemma_course_diffs_title(
    ps: Seq<(Option<CourseV>, Option<CourseV>)>,
    t: CourseTitleV,
    dropped: bool,
)
    requires
        forall|u: int|
            0 <= u < ps.len() ==> (pair_mentions(#[trigger] ps[u], t) ==> (if dropped {
                dropped_pair(ps[u], t)
            } else {
                added_pair(ps[u], t)
            })),
    ensures
        count_title(course_diffs(ps), t) == count_pair_title(ps, t),
        forall|i: int|
            0 <= i < course_diffs(ps).len() && mentions_title(
                #[trigger] course_diffs(ps)[i],
                t,
            ) ==> (if dropped {
                dropped_entry(course_diffs(ps)[i], t)
            } else {
                added_entry(course_diffs(ps)[i], t)
            }),
    decreases ps.len(),
{
    if ps.len() > 0 {
        let tail = ps.subrange(1, ps.len() as int);
        lemma_course_diffs_title(tail, t, dropped);
        let rest = course_diffs(tail);
        match course_changes_spec(ps[0].0, ps[0].1) {
            Some(e) => {
                assert(course_diffs(ps) == seq![e] + rest);
                assert(course_diffs(ps)[0] == e);
                assert(forall|i: int|
                    1 <= i < course_diffs(ps).len() ==> (#[trigger] course_diffs(ps)[i])
                        == rest[i - 1]);
                assert((seq![e] + rest).subrange(1, (seq![e] + rest).len() as int) =~= rest);
                assert(e.old == ps[0].0 && e.new == ps[0].1);
                assert(mentions_title(e, t) == pair_mentions(ps[0], t));
                if pair_mentions(ps[0], t) {
                    if dropped {
                        assert(dropped_pair(ps[0], t));
                        assert(dropped_entry(e, t));
                    } else {
                        assert(added_pair(ps[0], t));
                        assert(added_entry(e, t));
                    }
                }
            },
            None => {
                assert(course_diffs(ps) == rest);
                assert(!pair_mentions(ps[0], t));
            },
        }
    }
}

proof fn lemma_count_pairs_single(
    ps: Seq<(Option<CourseV>, Option<CourseV>)>,
    t: CourseTitleV,
    u0: int,
)
    requires
        0 <= u0 < ps.len(),
        pair_mentions(ps[u0], t),
        forall|u: int| 0 <= u < ps.len() && u != u0 ==> !pair_mentions(#[trigger] ps[u], t),
    ensures
        count_pair_title(ps, t) == 1,
    decreases ps.len(),
{
    let tail = ps.subrange(1, ps.len() as int);
    if u0 == 0 {
        lemma_count_pairs_none(tail, t);
    } else {
        lemma_count_pairs_single(tail, t, u0 - 1);
    }
}

proof fn lemma_count_pairs_none(ps: Seq<(Option<CourseV>, Option<CourseV>)>, t: CourseTitleV)
    requires
        forall|u: int| 0 <= u < ps.len() ==> !pair_mentions(#[trigger] ps[u], t),
    ensures
        count_pair_title(ps, t) == 0,
    decreases ps.len(),
{
    if ps.len() > 0 {
        lemma_count_pairs_none(ps.subrange(1, ps.len() as int), t);
    }
}

proof fn lemma_count_title_pos(cs: Seq<CourseChangesV>, t: CourseTitleV)
    requires
        count_title(cs, t) > 0,
    ensures
        cs.len() > 0,
{
}

} // verus!

verus! {

/// A course present in the old snapshot and absent from the new one
/// appears in the changeset exactly once, tagged as dropped.
pub proof fn lemma_dropped_course(o: GradebookV, n: GradebookV, i0: int)
    requires
        0 <= i0 < o.courses.len(),
        forall|i: int, j: int|
            0 <= i < j < o.courses.len() ==> (#[trigger] o.courses[i]).title != (
            #[trigger] o.courses[j]).title,
        forall|j: int|
            0 <= j < n.courses.len() ==> (#[trigger] n.courses[j]).title
                != o.courses[i0].title,
    ensures
        ({
            let t = o.courses[i0].title;
            match changeset_spec(o, n) {
                Some(cs) => count_title(cs.changes, t) == 1 && (forall|i: int|
                    0 <= i < cs.changes.len() && mentions_title(#[trigger] cs.changes[i], t)
                        ==> dropped_entry(cs.changes[i], t)),
                None => false,
            }
        }),
{
    let t = o.courses[i0].title;
    let pairs = pair_spec::<CourseTitleV, Course>(o.courses, n.courses);
    lemma_pairing_partition::<CourseTitleV, Course>(o.courses, n.courses);
    lemma_pairing_keys::<CourseTitleV, Course>(o.courses, n.courses);
    assert(pairs[i0].0 == Some(o.courses[i0]));
    assert(pairs[i0].1 is None) by {
        match pairs[i0].1 {
            Some(y) => {
                assert(<Course as Pairable<CourseTitleV>>::vkey(y) == <Course as Pairable<
                    CourseTitleV,
                >>::vkey(o.courses[i0]));
                assert(n.courses.contains(y));
                let j = choose|j: int| 0 <= j < n.courses.len() && n.courses[j] == y;
                assert(n.courses[j].title != t);
            },
            None => {},
        }
    }
    assert(pair_mentions(pairs[i0], t));
    assert(dropped_pair(pairs[i0], t));
    assert forall|u: int|
        0 <= u < pairs.len() implies (pair_mentions(#[trigger] pairs[u], t) ==> dropped_pair(
        pairs[u],
        t,
    )) by {
        if pair_mentions(pairs[u], t) && u != i0 {
            if u < o.courses.len() {
                if u < i0 {
                    assert(o.courses[u].title != o.courses[i0].title);
                } else {
                    assert(o.courses[i0].title != o.courses[u].title);
                }
                match pairs[u].1 {
                    Some(y) => {
                        assert(<Course as Pairable<CourseTitleV>>::vkey(y) == <Course as Pairable<
                            CourseTitleV,
                        >>::vkey(o.courses[u]));
                    },
                    None => {},
                }
            } else {
                assert(pairs[u].0 is None);
                match pairs[u].1 {
                    Some(y) => {
                        assert(n.courses.contains(y));
                        let j = choose|j: int| 0 <= j < n.courses.len() && n.courses[j] == y;
                        assert(n.courses[j].title != t);
                    },
                    None => {},
                }
            }
        }
    }
    assert forall|u: int|
        0 <= u < pairs.len() && u != i0 implies !pair_mentions(#[trigger] pairs[u], t) by {
        if pair_mentions(pairs[u], t) {
            assert(dropped_pair(pairs[u], t));
            if u < o.courses.len() {
                if u < i0 {
                    assert(o.courses[u].title != o.courses[i0].title);
                } else {
                    assert(o.courses[i0].title != o.courses[u].title);
                }
            } else {
                assert(pairs[u].0 is None);
            }
        }
    }
    lemma_count_pairs_single(pairs, t, i0);
    lemma_course_diffs_title(pairs, t, true);
    assert(count_title(course_diffs(pairs), t) == 1);
    lemma_count_title_pos(course_diffs(pairs), t);
    let cds = course_diffs(pairs);
    assert(changeset_spec(o, n) == Some(ChangesetV { old: o, new: n, changes: cds }));
    assert forall|i: int|
        0 <= i < cds.len() && mentions_title(#[trigger] cds[i], t) implies dropped_entry(
        cds[i],
        t,
    ) by {
        assert(course_diffs(pairs)[i] == cds[i]);
    }
}

/// A course present in the new snapshot and absent from the old one
/// appears in the changeset exactly once, tagged as added.
pub proof fn lemma_added_course(o: GradebookV, n: GradebookV, j0: int)
    requires
        0 <= j0 < n.courses.len(),
        forall|i: int, j: int|
            0 <= i < j < n.courses.len() ==> (#[trigger] n.courses[i]).title != (
            #[trigger] n.courses[j]).title,
        forall|i: int|
            0 <= i < o.courses.len() ==> (#[trigger] o.courses[i]).title
                != n.courses[j0].title,
    ensures
        ({
            let t = n.courses[j0].title;
            match changeset_spec(o, n) {
                Some(cs) => count_title(cs.changes, t) == 1 && (forall|i: int|
                    0 <= i < cs.changes.len() && mentions_title(#[trigger] cs.changes[i], t)
                        ==> added_entry(cs.changes[i], t)),
                None => false,
            }
        }),
{
    broadcast use vstd::seq_lib::group_to_multiset_ensures;

    let t = n.courses[j0].title;
    let pairs = pair_spec::<CourseTitleV, Course>(o.courses, n.courses);
    lemma_pairing_partition::<CourseTitleV, Course>(o.courses, n.courses);
    lemma_pairing_keys::<CourseTitleV, Course>(o.courses, n.courses);
    assert forall|u: int|
        0 <= u < pairs.len() implies (pair_mentions(#[trigger] pairs[u], t) ==> added_pair(
        pairs[u],
        t,
    )) by {
        if pair_mentions(pairs[u], t) {
            if u < o.courses.len() {
                assert(o.courses[u].title != t);
                match pairs[u].1 {
                    Some(y) => {
                        assert(<Course as Pairable<CourseTitleV>>::vkey(y) == <Course as Pairable<
                            CourseTitleV,
                        >>::vkey(o.courses[u]));
                        assert(y.title != t);
                    },
                    None => {},
                }
                assert(false);
            } else {
                assert(pairs[u].0 is None);
            }
        }
    }
    // Exactly one pair carries the title: the added course appears once
    // among the right sides, and every mentioning pair has it on the right.
    let c = n.courses[j0];
    assert(rights_of(pairs).to_multiset() == n.courses.to_multiset());
    assert(n.courses.no_duplicates()) by {
        assert forall|i: int, j: int|
            0 <= i < n.courses.len() && 0 <= j < n.courses.len() && i != j implies n.courses[i]
            != n.courses[j] by {
            if i < j {
                assert(n.courses[i].title != n.courses[j].title);
            } else {
                assert(n.courses[j].title != n.courses[i].title);
            }
        }
    }
    n.courses.lemma_multiset_has_no_duplicates();
    assert(n.courses.to_multiset().count(c) == 1);
    // Pairs mentioning the title do so on the right, with value c.
    assert forall|u: int|
        0 <= u < pairs.len() && pair_mentions(#[trigger] pairs[u], t) implies (
        pairs[u].1 == Some(c)) by {
        match pairs[u].1 {
            Some(y) => {
                assert(n.courses.contains(y));
                let j = choose|j: int| 0 <= j < n.courses.len() && n.courses[j] == y;
                if y.title == t {
                    if j < j0 {
                        assert(n.courses[j].title != n.courses[j0].title);
                    } else if j > j0 {
                        assert(n.courses[j0].title != n.courses[j].title);
                    }
                    assert(y == c);
                } else {
                    assert(u < o.courses.len() ==> o.courses[u].title != t);
                }
            },
            None => {
                assert(u < o.courses.len() ==> o.courses[u].title != t);
            },
        }
    }
    // c occurs exactly once among the rights, so exactly one pair carries it.
    let u0 = lemma_rights_index(pairs, c);
    assert(pair_mentions(pairs[u0], t));
    assert forall|u: int|
        0 <= u < pairs.len() && u != u0 implies !pair_mentions(#[trigger] pairs[u], t) by {
        if pair_mentions(pairs[u], t) {
            assert(pairs[u].1 == Some(c));
            lemma_rights_two(pairs, u0, u, c);
        }
    }
    lemma_count_pairs_single(pairs, t, u0);
    lemma_course_diffs_title(pairs, t, false);
    lemma_count_title_pos(course_diffs(pairs), t);
    let cds = course_diffs(pairs);
    assert(changeset_spec(o, n) == Some(ChangesetV { old: o, new: n, changes: cds }));
    assert forall|i: int|
        0 <= i < cds.len() && mentions_title(#[trigger] cds[i], t) implies added_entry(
        cds[i],
        t,
    ) by {
        assert(course_diffs(pairs)[i] == cds[i]);
    }
}

/// Some pair has `c` on its right when `c` occurs among the rights.
proof fn lemma_rights_index<T>(pairs: Seq<(Option<T>, Option<T>)>, c: T) -> (u: int)
    requires
        rights_of(pairs).to_multiset().count(c) >= 1,
    ensures
        0 <= u < pairs.len(),
        pairs[u].1 == Some(c),
    decreases pairs.len(),
{
    broadcast use vstd::seq_lib::group_to_multiset_ensures;

    assert(rights_of(pairs).contains(c));
    if pairs.len() == 0 {
        assert(false);
        0
    } else {
        let tail = pairs.subrange(1, pairs.len() as int);
        match pairs[0].1 {
            Some(y) => {
                if y == c {
                    0
                } else {
                    assert(rights_of(pairs) == seq![y] + rights_of(tail));
                    lemma_cons_multiset(y, rights_of(tail));
                    let u = lemma_rights_index(tail, c);
                    u + 1
                }
            },
            None => {
                assert(rights_of(pairs) == rights_of(tail));
                let u = lemma_rights_index(tail, c);
                u + 1
            },
        }
    }
}

/// Two distinct pairs with `c` on the right put `c` among the rights at
/// least twice.
proof fn lemma_rights_two<T>(pairs: Seq<(Option<T>, Option<T>)>, u: int, v: int, c: T)
    requires
        0 <= u < pairs.len(),
        0 <= v < pairs.len(),
        u != v,
        pairs[u].1 == Some(c),
        pairs[v].1 == Some(c),
    ensures
        rights_of(pairs).to_multiset().count(c) >= 2,
    decreases pairs.len(),
{
    broadcast use vstd::seq_lib::group_to_multiset_ensures;

    let tail = pairs.subrange(1, pairs.len() as int);
    match pairs[0].1 {
        Some(y) => {
            assert(rights_of(pairs) == seq![y] + rights_of(tail));
            lemma_cons_multiset(y, rights_of(tail));
            if u == 0 {
                lemma_rights_contains_at(tail, v - 1, c);
                assert(rights_of(tail).to_multiset().count(c) > 0);
            } else if v == 0 {
                lemma_rights_contains_at(tail, u - 1, c);
                assert(rights_of(tail).to_multiset().count(c) > 0);
            } else {
                lemma_rights_two(tail, u - 1, v - 1, c);
            }
        },
        None => {
            assert(rights_of(pairs) == rights_of(tail));
            lemma_rights_two(tail, u - 1, v - 1, c);
        },
    }
}

} // verus!

verus! {

// Key-stability of pairing: reordering either collection leaves the
// multiset of output pairs unchanged, provided keys are unique.

/// No two elements share a pairing key.
pub open spec fn distinct_keys<K, V: Pairable<K>>(s: Seq<V::V>) -> bool {
    forall|i: int, j: int|
        0 <= i < j < s.len() ==> V::vkey(#[trigger] s[i]) != V::vkey(#[trigger] s[j])
}

/// The first position at or after `j` whose element carries key `k`.
pub open spec fn key_first<K, V: Pairable<K>>(news: Seq<V::V>, k: K, j: int) -> Option<int>
    decreases news.len() - j,
{
    if j < 0 || j >= news.len() {
        None
    } else if V::vkey(news[j]) == k {
        Some(j)
    } else {
        key_first::<K, V>(news, k, j + 1)
    }
}

/// The first element carrying key `k`, if any.
pub open spec fn first_val<K, V: Pairable<K>>(news: Seq<V::V>, k: K) -> Option<V::V> {
    match key_first::<K, V>(news, k, 0) {
        Some(j) => Some(news[j]),
        None => None,
    }
}

/// No earlier element shares position `j`'s key.
pub open spec fn is_first_occ<K, V: Pairable<K>>(news: Seq<V::V>, j: int) -> bool {
    forall|u: int| 0 <= u < j ==> V::vkey(#[trigger] news[u]) != V::vkey(news[j])
}

/// The new elements with the first occurrence of every claimed key blanked
/// out.
pub open spec fn claimed<K, V: Pairable<K>>(news: Seq<V::V>, s: Set<K>) -> Seq<Option<V::V>> {
    Seq::new(
        news.len(),
        |j: int|
            if s.contains(V::vkey(news[j])) && is_first_occ::<K, V>(news, j) {
                None
            } else {
                Some(news[j])
            },
    )
}

/// The keys of the elements from position `oi` on.
pub open spec fn key_set<K, V: Pairable<K>>(olds: Seq<V::V>, oi: int) -> Set<K>
    decreases olds.len() - oi,
{
    if oi < 0 || oi >= olds.len() {
        Set::empty()
    } else {
        key_set::<K, V>(olds, oi + 1).insert(V::vkey(olds[oi]))
    }
}

proof fn lemma_key_first_props<K, V: Pairable<K>>(news: Seq<V::V>, k: K, j: int)
    requires
        0 <= j,
    ensures
        match key_first::<K, V>(news, k, j) {
            Some(p) => j <= p < news.len() && V::vkey(news[p]) == k && (forall|u: int|
                j <= u < p ==> V::vkey(#[trigger] news[u]) != k),
            None => forall|u: int| j <= u < news.len() ==> V::vkey(#[trigger] news[u]) != k,
        },
    decreases news.len() - j,
{
    if j < news.len() {
        lemma_key_first_props::<K, V>(news, k, j + 1);
    }
}

proof fn lemma_key_set_contains<K, V: Pairable<K>>(olds: Seq<V::V>, oi: int, k: K)
    requires
        0 <= oi,
    ensures
        key_set::<K, V>(olds, oi).contains(k) <==> exists|t: int|
            oi <= t < olds.len() && V::vkey(#[trigger] olds[t]) == k,
    decreases olds.len() - oi,
{
    if oi < olds.len() {
        lemma_key_set_contains::<K, V>(olds, oi + 1, k);
        if V::vkey(olds[oi]) == k {
            assert(oi <= oi < olds.len() && V::vkey(olds[oi]) == k);
        }
    }
}

/// Searching the claimed slots for an unclaimed key finds its first
/// occurrence.
proof fn lemma_match_claimed<K, V: Pairable<K>>(news: Seq<V::V>, s: Set<K>, k: K, j: int)
    requires
        0 <= j,
        !s.contains(k),
    ensures
        match_from::<K, V>(claimed::<K, V>(news, s), k, j) == key_first::<K, V>(news, k, j),
    decreases news.len() - j,
{
    if 0 <= j < news.len() {
        lemma_match_claimed::<K, V>(news, s, k, j + 1);
    }
}

/// Claiming a key blanks out exactly its first occurrence.
proof fn lemma_claimed_update<K, V: Pairable<K>>(news: Seq<V::V>, s: Set<K>, k: K, j0: int)
    requires
        !s.contains(k),
        key_first::<K, V>(news, k, 0) == Some(j0),
    ensures
        claimed::<K, V>(news, s).update(j0, None) == claimed::<K, V>(news, s.insert(k)),
{
    lemma_key_first_props::<K, V>(news, k, 0);
    let a = claimed::<K, V>(news, s).update(j0, None::<V::V>);
    let b = claimed::<K, V>(news, s.insert(k));
    assert forall|u: int| 0 <= u < news.len() implies a[u] == b[u] by {
        if u == j0 {
            assert(is_first_occ::<K, V>(news, j0));
        } else if V::vkey(news[u]) == k {
            assert(u > j0);
            assert(V::vkey(news[j0]) == V::vkey(news[u]));
            assert(!is_first_occ::<K, V>(news, u));
        }
    }
    assert(a =~= b);
}

/// A key absent from the collection claims nothing.
proof fn lemma_claimed_absent<K, V: Pairable<K>>(news: Seq<V::V>, s: Set<K>, k: K)
    requires
        key_first::<K, V>(news, k, 0) is None,
    ensures
        claimed::<K, V>(news, s.insert(k)) == claimed::<K, V>(news, s),
{
    lemma_key_first_props::<K, V>(news, k, 0);
    assert(claimed::<K, V>(news, s.insert(k)) =~= claimed::<K, V>(news, s));
}

/// Sequences with equal multisets have equal multisets of mapped values.
proof fn lemma_map_values_multiset<A, B>(s1: Seq<A>, s2: Seq<A>, f: spec_fn(A) -> B)
    requires
        s1.to_multiset() == s2.to_multiset(),
    ensures
        s1.map_values(f).to_multiset() == s2.map_values(f).to_multiset(),
    decreases s1.len(),
{
    broadcast use vstd::seq_lib::group_to_multiset_ensures;
    broadcast use vstd::multiset::group_multiset_axioms;

    if s1.len() == 0 {
        assert(s2.to_multiset().len() == 0);
        assert(s1.map_values(f) =~= Seq::<B>::empty());
        assert(s2.map_values(f) =~= Seq::<B>::empty());
    } else {
        let x = s1.last();
        let s1p = s1.drop_last();
        assert(s1p.push(x) =~= s1);
        assert(s1.to_multiset() == s1p.to_multiset().insert(x));
        assert(s1.to_multiset().count(x) > 0);
        assert(s2.contains(x));
        let i = choose|i: int| 0 <= i < s2.len() && s2[i] == x;
        let s2p = s2.remove(i);
        assert(s2p.to_multiset() == s2.to_multiset().remove(x));
        assert(s1p.to_multiset() =~= s2p.to_multiset());
        lemma_map_values_multiset(s1p, s2p, f);
        assert(s1p.map_values(f).push(f(x)) =~= s1.map_values(f));
        assert(s1.map_values(f).to_multiset() == s1p.map_values(f).to_multiset().insert(f(x)));
        assert(s2.map_values(f).remove(i) =~= s2p.map_values(f));
        assert(s2p.map_values(f).to_multiset() == s2.map_values(f).to_multiset().remove(
            s2.map_values(f)[i],
        ));
        assert(s2.map_values(f)[i] == f(x));
        assert(s2.map_values(f).to_multiset().count(f(x)) > 0) by {
            assert(s2.map_values(f)[i] == f(x));
            assert(s2.map_values(f).contains(f(x)));
        }
        assert(s1.map_values(f).to_multiset() =~= s2.map_values(f).to_multiset());
    }
}

} // verus!

verus! {

/// With distinct old keys, each old element pairs with the first new
/// element carrying its key, independently of the other old elements, and
/// what remains unclaimed is determined by the set of old keys.
proof fn lemma_pair_olds_claimed<K, V: Pairable<K>>(
    olds: Seq<V::V>,
    news: Seq<V::V>,
    s: Set<K>,
    oi: int,
)
    requires
        0 <= oi <= olds.len(),
        distinct_keys::<K, V>(olds),
        forall|t: int| oi <= t < olds.len() ==> !s.contains(V::vkey(#[trigger] olds[t])),
    ensures
        ({
            let pr = pair_olds::<K, V>(olds, claimed::<K, V>(news, s), oi);
            &&& pr.0 == Seq::new(
                (olds.len() - oi) as nat,
                |t: int| (Some(olds[oi + t]), first_val::<K, V>(news, V::vkey(olds[oi + t]))),
            )
            &&& pr.1 == claimed::<K, V>(news, s.union(key_set::<K, V>(olds, oi)))
        }),
    decreases olds.len() - oi,
{
    let rem = claimed::<K, V>(news, s);
    let pr = pair_olds::<K, V>(olds, rem, oi);
    if oi >= olds.len() {
        assert(pr.0 =~= Seq::new(
            (olds.len() - oi) as nat,
            |t: int| (Some(olds[oi + t]), first_val::<K, V>(news, V::vkey(olds[oi + t]))),
        ));
        assert(s.union(key_set::<K, V>(olds, oi)) =~= s);
    } else {
        let k = V::vkey(olds[oi]);
        lemma_match_claimed::<K, V>(news, s, k, 0);
        lemma_key_first_props::<K, V>(news, k, 0);
        match key_first::<K, V>(news, k, 0) {
            Some(j0) => {
                assert(rem[j0] == Some(news[j0]));
                lemma_claimed_update::<K, V>(news, s, k, j0);
                let s2 = s.insert(k);
                assert forall|t: int|
                    oi + 1 <= t < olds.len() implies !s2.contains(V::vkey(
                    #[trigger] olds[t],
                )) by {
                    assert(V::vkey(olds[oi]) != V::vkey(olds[t]));
                }
                lemma_pair_olds_claimed::<K, V>(olds, news, s2, oi + 1);
                let pr2 = pair_olds::<K, V>(olds, claimed::<K, V>(news, s2), oi + 1);
                assert(pr.0 == seq![(Some(olds[oi]), Some(news[j0]))] + pr2.0);
                assert(first_val::<K, V>(news, k) == Some(news[j0]));
                assert(pr.0 =~= Seq::new(
                    (olds.len() - oi) as nat,
                    |t: int|
                        (Some(olds[oi + t]), first_val::<K, V>(news, V::vkey(olds[oi + t]))),
                ));
                assert(s2.union(key_set::<K, V>(olds, oi + 1)) =~= s.union(
                    key_set::<K, V>(olds, oi),
                ));
            },
            None => {
                lemma_pair_olds_claimed::<K, V>(olds, news, s, oi + 1);
                let pr2 = pair_olds::<K, V>(olds, claimed::<K, V>(news, s), oi + 1);
                assert(pr.0 == seq![(Some(olds[oi]), None::<V::V>)] + pr2.0);
                assert(first_val::<K, V>(news, k) is None);
                assert(pr.0 =~= Seq::new(
                    (olds.len() - oi) as nat,
                    |t: int|
                        (Some(olds[oi + t]), first_val::<K, V>(news, V::vkey(olds[oi + t]))),
                ));
                lemma_claimed_absent::<K, V>(news, s.union(key_set::<K, V>(olds, oi + 1)), k);
                assert(s.union(key_set::<K, V>(olds, oi + 1)).insert(k) =~= s.union(
                    key_set::<K, V>(olds, oi),
                ));
            },
        }
    }
}

/// Values with distinct keys stay value-distinct under any reordering, so
/// key distinctness carries across equal multisets.
proof fn lemma_distinct_keys_ms<K, V: Pairable<K>>(s1: Seq<V::V>, s2: Seq<V::V>)
    requires
        distinct_keys::<K, V>(s1),
        s1.to_multiset() == s2.to_multiset(),
    ensures
        distinct_keys::<K, V>(s2),
{
    broadcast use vstd::seq_lib::group_to_multiset_ensures;
    broadcast use vstd::multiset::group_multiset_axioms;

    assert(s1.no_duplicates()) by {
        assert forall|i: int, j: int|
            0 <= i < s1.len() && 0 <= j < s1.len() && i != j implies s1[i] != s1[j] by {
            if i < j {
                assert(V::vkey(s1[i]) != V::vkey(s1[j]));
            } else {
                assert(V::vkey(s1[j]) != V::vkey(s1[i]));
            }
        }
    }
    s1.lemma_multiset_has_no_duplicates();
    s2.lemma_multiset_has_no_duplicates_conv();
    assert forall|i: int, j: int|
        0 <= i < j < s2.len() implies V::vkey(#[trigger] s2[i]) != V::vkey(
        #[trigger] s2[j],
    ) by {
        assert(s2[i] != s2[j]) by {
            if s2[i] == s2[j] {
                assert(s2.to_multiset().count(s2[i]) >= 2) by {
                    let r = s2.remove(i);
                    assert(r.to_multiset() == s2.to_multiset().remove(s2[i]));
                    assert(r[j - 1] == s2[j]);
                    assert(r.contains(s2[j]));
                    assert(r.to_multiset().count(s2[j]) > 0);
                }
            }
        }
        if V::vkey(s2[i]) == V::vkey(s2[j]) {
            assert(s2.contains(s2[i]));
            assert(s2.contains(s2[j]));
            assert(s2.to_multiset().count(s2[i]) > 0);
            assert(s2.to_multiset().count(s2[j]) > 0);
            assert(s1.to_multiset().count(s2[i]) > 0);
            assert(s1.to_multiset().count(s2[j]) > 0);
            assert(s1.contains(s2[i]));
            assert(s1.contains(s2[j]));
            let u = choose|u: int| 0 <= u < s1.len() && s1[u] == s2[i];
            let v = choose|v: int| 0 <= v < s1.len() && s1[v] == s2[j];
            assert(u != v);
            if u < v {
                assert(V::vkey(s1[u]) != V::vkey(s1[v]));
            } else {
                assert(V::vkey(s1[v]) != V::vkey(s1[u]));
            }
        }
    }
}

/// Key-stability in the old collection: reordering it leaves the multiset
/// of output pairs unchanged.
pub proof fn lemma_pairing_old_reorder<K, V: Pairable<K>>(
    olds1: Seq<V::V>,
    olds2: Seq<V::V>,
    news: Seq<V::V>,
)
    requires
        distinct_keys::<K, V>(olds1),
        olds1.to_multiset() == olds2.to_multiset(),
    ensures
        pair_spec::<K, V>(olds1, news).to_multiset() == pair_spec::<K, V>(
            olds2,
            news,
        ).to_multiset(),
{
    broadcast use vstd::seq_lib::group_to_multiset_ensures;
    broadcast use vstd::multiset::group_multiset_axioms;

    lemma_distinct_keys_ms::<K, V>(olds1, olds2);
    assert(claimed::<K, V>(news, Set::empty()) =~= news.map_values(|x: V::V| Some(x)));
    lemma_pair_olds_claimed::<K, V>(olds1, news, Set::empty(), 0);
    lemma_pair_olds_claimed::<K, V>(olds2, news, Set::empty(), 0);
    let pr1 = pair_olds::<K, V>(olds1, news.map_values(|x: V::V| Some(x)), 0);
    let pr2 = pair_olds::<K, V>(olds2, news.map_values(|x: V::V| Some(x)), 0);
    let f = |o: V::V| (Some(o), first_val::<K, V>(news, V::vkey(o)));
    assert(pr1.0 =~= olds1.map_values(f));
    assert(pr2.0 =~= olds2.map_values(f));
    lemma_map_values_multiset(olds1, olds2, f);
    assert(key_set::<K, V>(olds1, 0) =~= key_set::<K, V>(olds2, 0)) by {
        assert forall|k: K|
            key_set::<K, V>(olds1, 0).contains(k) == key_set::<K, V>(olds2, 0).contains(
            k,
        ) by {
            lemma_key_set_contains::<K, V>(olds1, 0, k);
            lemma_key_set_contains::<K, V>(olds2, 0, k);
            if exists|t: int| 0 <= t < olds1.len() && V::vkey(#[trigger] olds1[t]) == k {
                let t = choose|t: int| 0 <= t < olds1.len() && V::vkey(#[trigger] olds1[t]) == k;
                assert(olds1.contains(olds1[t]));
                assert(olds1.to_multiset().count(olds1[t]) > 0);
                assert(olds2.to_multiset().count(olds1[t]) > 0);
                assert(olds2.contains(olds1[t]));
            }
            if exists|t: int| 0 <= t < olds2.len() && V::vkey(#[trigger] olds2[t]) == k {
                let t = choose|t: int| 0 <= t < olds2.len() && V::vkey(#[trigger] olds2[t]) == k;
                assert(olds2.contains(olds2[t]));
                assert(olds2.to_multiset().count(olds2[t]) > 0);
                assert(olds1.to_multiset().count(olds2[t]) > 0);
                assert(olds1.contains(olds2[t]));
            }
        }
    }
    assert(Set::empty().union(key_set::<K, V>(olds1, 0)) =~= Set::empty().union(
        key_set::<K, V>(olds2, 0),
    ));
    assert(pr1.1 == pr2.1);
    vstd::seq_lib::lemma_multiset_commutative(pr1.0, leftovers(pr1.1));
    vstd::seq_lib::lemma_multiset_commutative(pr2.0, leftovers(pr2.1));
    assert(pair_spec::<K, V>(olds1, news).to_multiset() =~= pair_spec::<K, V>(
        olds2,
        news,
    ).to_multiset());
}

} // verus!

verus! {

/// With distinct new keys, the matched pairs do not depend on the order of
/// the new collection at all.
proof fn lemma_pair_olds_two_news<K, V: Pairable<K>>(
    olds: Seq<V::V>,
    news1: Seq<V::V>,
    news2: Seq<V::V>,
    s: Set<K>,
    oi: int,
)
    requires
        0 <= oi <= olds.len(),
        distinct_keys::<K, V>(news1),
        distinct_keys::<K, V>(news2),
        news1.to_multiset() == news2.to_multiset(),
    ensures
        pair_olds::<K, V>(olds, claimed::<K, V>(news1, s), oi).0 == pair_olds::<K, V>(
            olds,
            claimed::<K, V>(news2, s),
            oi,
        ).0,
    decreases olds.len() - oi,
{
    broadcast use vstd::seq_lib::group_to_multiset_ensures;

    if oi < olds.len() {
        let k = V::vkey(olds[oi]);
        let rem1 = claimed::<K, V>(news1, s);
        let rem2 = claimed::<K, V>(news2, s);
        if s.contains(k) {
            assert(match_from::<K, V>(rem1, k, 0) is None) by {
                lemma_match_from_props::<K, V>(rem1, k, 0);
                match match_from::<K, V>(rem1, k, 0) {
                    Some(p) => {
                        assert(rem1[p] == Some(news1[p]) && V::vkey(news1[p]) == k);
                        assert(!is_first_occ::<K, V>(news1, p));
                        let u = choose|u: int|
                            0 <= u < p && V::vkey(#[trigger] news1[u]) == V::vkey(news1[p]);
                        assert(false);
                    },
                    None => {},
                }
            }
            assert(match_from::<K, V>(rem2, k, 0) is None) by {
                lemma_match_from_props::<K, V>(rem2, k, 0);
                match match_from::<K, V>(rem2, k, 0) {
                    Some(p) => {
                        assert(rem2[p] == Some(news2[p]) && V::vkey(news2[p]) == k);
                        assert(!is_first_occ::<K, V>(news2, p));
                        let u = choose|u: int|
                            0 <= u < p && V::vkey(#[trigger] news2[u]) == V::vkey(news2[p]);
                        assert(false);
                    },
                    None => {},
                }
            }
            lemma_pair_olds_two_news::<K, V>(olds, news1, news2, s, oi + 1);
        } else {
            lemma_match_claimed::<K, V>(news1, s, k, 0);
            lemma_match_claimed::<K, V>(news2, s, k, 0);
            lemma_key_first_props::<K, V>(news1, k, 0);
            lemma_key_first_props::<K, V>(news2, k, 0);
            match key_first::<K, V>(news1, k, 0) {
                Some(j1) => {
                    let y = news1[j1];
                    assert(news1.contains(y));
                    assert(news1.to_multiset().count(y) > 0);
                    assert(news2.to_multiset().count(y) > 0);
                    assert(news2.contains(y));
                    let j2x = choose|j: int| 0 <= j < news2.len() && news2[j] == y;
                    match key_first::<K, V>(news2, k, 0) {
                        Some(j2) => {
                            assert(news2[j2x] == y && V::vkey(news2[j2x]) == k);
                            assert(V::vkey(news2[j2]) == k);
                            assert(news2[j2] == y) by {
                                if j2 < j2x {
                                    assert(V::vkey(news2[j2]) != V::vkey(news2[j2x]));
                                } else if j2 > j2x {
                                    assert(V::vkey(news2[j2x]) != V::vkey(news2[j2]));
                                }
                            }
                            lemma_claimed_update::<K, V>(news1, s, k, j1);
                            lemma_claimed_update::<K, V>(news2, s, k, j2);
                            lemma_pair_olds_two_news::<K, V>(
                                olds,
                                news1,
                                news2,
                                s.insert(k),
                                oi + 1,
                            );
                            assert(rem1[j1] == Some(y));
                            assert(rem2[j2] == Some(y));
                        },
                        None => {
                            assert(V::vkey(news2[j2x]) == k);
                            assert(false);
                        },
                    }
                },
                None => {
                    match key_first::<K, V>(news2, k, 0) {
                        Some(j2) => {
                            let y = news2[j2];
                            assert(news2.contains(y));
                            assert(news2.to_multiset().count(y) > 0);
                            assert(news1.to_multiset().count(y) > 0);
                            assert(news1.contains(y));
                            let u = choose|u: int| 0 <= u < news1.len() && news1[u] == y;
                            assert(V::vkey(news1[u]) == k);
                            assert(false);
                        },
                        None => {
                            lemma_pair_olds_two_news::<K, V>(olds, news1, news2, s, oi + 1);
                        },
                    }
                },
            }
        }
    }
}

/// Key-stability in the new collection: reordering it leaves the multiset
/// of output pairs unchanged.
pub proof fn lemma_pairing_new_reorder<K, V: Pairable<K>>(
    olds: Seq<V::V>,
    news1: Seq<V::V>,
    news2: Seq<V::V>,
)
    requires
        distinct_keys::<K, V>(news1),
        news1.to_multiset() == news2.to_multiset(),
    ensures
        pair_spec::<K, V>(olds, news1).to_multiset() == pair_spec::<K, V>(
            olds,
            news2,
        ).to_multiset(),
{
    broadcast use vstd::seq_lib::group_to_multiset_ensures;
    broadcast use vstd::multiset::group_multiset_axioms;

    lemma_distinct_keys_ms::<K, V>(news1, news2);
    assert(claimed::<K, V>(news1, Set::empty()) =~= news1.map_values(|x: V::V| Some(x)));
    assert(claimed::<K, V>(news2, Set::empty()) =~= news2.map_values(|x: V::V| Some(x)));
    lemma_pair_olds_two_news::<K, V>(olds, news1, news2, Set::empty(), 0);
    let rem1 = news1.map_values(|x: V::V| Some(x));
    let rem2 = news2.map_values(|x: V::V| Some(x));
    let pr1 = pair_olds::<K, V>(olds, rem1, 0);
    let pr2 = pair_olds::<K, V>(olds, rem2, 0);
    assert(pr1.0 == pr2.0);
    lemma_pair_olds_props::<K, V>(olds, rem1, 0);
    lemma_pair_olds_props::<K, V>(olds, rem2, 0);
    lemma_somes_map(news1);
    lemma_somes_map(news2);
    assert(somes(pr1.1).to_multiset() =~= somes(pr2.1).to_multiset()) by {
        assert(rights_of(pr1.0).to_multiset().add(somes(pr1.1).to_multiset())
            == news1.to_multiset());
        assert(rights_of(pr2.0).to_multiset().add(somes(pr2.1).to_multiset())
            == news2.to_multiset());
        assert forall|x: V::V|
            somes(pr1.1).to_multiset().count(x) == somes(pr2.1).to_multiset().count(x) by {
            assert(rights_of(pr1.0).to_multiset().count(x) + somes(pr1.1).to_multiset().count(x)
                == news1.to_multiset().count(x));
            assert(rights_of(pr2.0).to_multiset().count(x) + somes(pr2.1).to_multiset().count(x)
                == news2.to_multiset().count(x));
        }
    }
    lemma_leftovers_props(pr1.1);
    lemma_leftovers_props(pr2.1);
    let g = |x: V::V| (None::<V::V>, Some(x));
    assert(leftovers(pr1.1) =~= somes(pr1.1).map_values(g));
    assert(leftovers(pr2.1) =~= somes(pr2.1).map_values(g));
    lemma_map_values_multiset(somes(pr1.1), somes(pr2.1), g);
    vstd::seq_lib::lemma_multiset_commutative(pr1.0, leftovers(pr1.1));
    vstd::seq_lib::lemma_multiset_commutative(pr2.0, leftovers(pr2.1));
    assert(pair_spec::<K, V>(olds, news1).to_multiset() =~= pair_spec::<K, V>(
        olds,
        news2,
    ).to_multiset());
}

} // verus!

verus! {

/// With distinct new keys, blanking the claimed keys leaves exactly the
/// elements whose key is unclaimed, in order.
proof fn lemma_somes_claimed_filter<K, V: Pairable<K>>(news: Seq<V::V>, s: Set<K>)
    requires
        distinct_keys::<K, V>(news),
    ensures
        somes(claimed::<K, V>(news, s)) == news.filter(
            |x: V::V| !s.contains(V::vkey(x)),
        ),
    decreases news.len(),
{
    reveal(Seq::filter);
    let p = |x: V::V| !s.contains(V::vkey(x));
    if news.len() == 0 {
        assert(claimed::<K, V>(news, s) =~= Seq::<Option<V::V>>::empty());
        assert(somes(claimed::<K, V>(news, s)) =~= news.filter(p));
    } else {
        let pre = news.drop_last();
        let x = news.last();
        assert(distinct_keys::<K, V>(pre)) by {
            assert(forall|i: int| 0 <= i < pre.len() ==> pre[i] == #[trigger] news[i]);
        }
        lemma_somes_claimed_filter::<K, V>(pre, s);
        assert(is_first_occ::<K, V>(news, news.len() - 1)) by {
            assert(forall|u: int|
                0 <= u < news.len() - 1 ==> V::vkey(#[trigger] news[u]) != V::vkey(
                    news[news.len() - 1],
                ));
        }
        let lastslot = if s.contains(V::vkey(x)) {
            None::<V::V>
        } else {
            Some(x)
        };
        assert(claimed::<K, V>(news, s) =~= claimed::<K, V>(pre, s).push(lastslot)) by {
            assert forall|j: int|
                0 <= j < news.len() - 1 implies claimed::<K, V>(news, s)[j] == claimed::<K, V>(
                pre,
                s,
            )[j] by {
                assert(is_first_occ::<K, V>(news, j) == is_first_occ::<K, V>(pre, j));
            }
        }
        assert(claimed::<K, V>(pre, s).push(lastslot) =~= claimed::<K, V>(pre, s) + seq![
            lastslot,
        ]);
        lemma_somes_concat(claimed::<K, V>(pre, s), seq![lastslot]);
        assert(seq![lastslot].subrange(1, 1) =~= Seq::<Option<V::V>>::empty());
        assert(somes(Seq::<Option<V::V>>::empty()) =~= Seq::<V::V>::empty());
        assert(seq![lastslot][0] == lastslot);
        if s.contains(V::vkey(x)) {
            assert(somes(seq![lastslot]) =~= Seq::<V::V>::empty());
            assert(somes(claimed::<K, V>(news, s)) =~= pre.filter(p));
            assert(news.filter(p) == pre.filter(p));
        } else {
            assert(somes(seq![lastslot]) == seq![x] + somes(
                seq![lastslot].subrange(1, 1),
            ));
            assert(somes(seq![lastslot]) =~= seq![x]);
            assert(news.filter(p) == pre.filter(p).push(x));
            assert(somes(claimed::<K, V>(news, s)) =~= pre.filter(p).push(x));
        }
    }
}

/// The pairing's length: one pair per old element, plus one per new
/// element whose key appears nowhere in the old collection.
pub proof fn lemma_pairing_length<K, V: Pairable<K>>(olds: Seq<V::V>, news: Seq<V::V>)
    requires
        distinct_keys::<K, V>(olds),
        distinct_keys::<K, V>(news),
    ensures
        pair_spec::<K, V>(olds, news).len() == olds.len() + news.filter(
            |x: V::V| !key_set::<K, V>(olds, 0).contains(V::vkey(x)),
        ).len(),
{
    let rem0 = news.map_values(|x: V::V| Some(x));
    assert(claimed::<K, V>(news, Set::empty()) =~= rem0);
    assert(forall|u: int|
        0 <= u < olds.len() ==> !Set::<K>::empty().contains(V::vkey(#[trigger] olds[u])));
    lemma_pair_olds_claimed::<K, V>(olds, news, Set::empty(), 0);
    let pr = pair_olds::<K, V>(olds, rem0, 0);
    let ks = key_set::<K, V>(olds, 0);
    assert(Set::empty().union(ks) =~= ks);
    assert(pr.1 == claimed::<K, V>(news, ks));
    lemma_leftovers_props(pr.1);
    lemma_somes_claimed_filter::<K, V>(news, ks);
    assert(pair_spec::<K, V>(olds, news).len() == pr.0.len() + leftovers(pr.1).len());
}

} // verus!

verus! {

// The lone-change law: two snapshots that agree everywhere but in the
// compared fields of one assignment of one course yield a changeset with
// exactly that course entry and exactly that assignment's change list.

proof fn lemma_assignment_self_none(a: AssignmentV)
    ensures
        assignment_changes_spec(a, a) is None,
{
    assert(assignment_changes_list(a, a) == Seq::<AssignmentChangeV>::empty());
}

proof fn lemma_course_self_none(c: CourseV)
    ensures
        course_changes_spec(Some(c), Some(c)) is None,
{
    assert(course_changes_list(c, c) == Seq::<CourseChangeV>::empty());
    lemma_pair_self::<Seq<char>, Assignment>(c.marks[0].assignments);
    lemma_assignment_diffs_self(c.marks[0].assignments);
}

/// Assignment lists that agree except at one position diff to exactly that
/// position's entry.
proof fn lemma_assignment_diffs_single(olds: Seq<AssignmentV>, news: Seq<AssignmentV>, aj: int)
    requires
        olds.len() == news.len(),
        0 <= aj < olds.len(),
        forall|u: int| 0 <= u < olds.len() && u != aj ==> #[trigger] news[u] == olds[u],
        assignment_changes_spec(olds[aj], news[aj]) is Some,
    ensures
        ({
            match assignment_changes_spec(olds[aj], news[aj]) {
                Some(e) => assignment_diffs(aligned_pairs(olds, news)) == seq![e],
                None => false,
            }
        }),
    decreases olds.len(),
{
    let ap = aligned_pairs(olds, news);
    let otail = olds.subrange(1, olds.len() as int);
    let ntail = news.subrange(1, news.len() as int);
    assert(ap.subrange(1, ap.len() as int) =~= aligned_pairs(otail, ntail));
    if aj == 0 {
        match assignment_changes_spec(olds[0], news[0]) {
            Some(e) => {
                assert(otail =~= ntail);
                assert(aligned_pairs(otail, ntail) =~= self_pairs(otail));
                lemma_assignment_diffs_self(otail);
                assert(assignment_diffs(ap) == seq![e] + assignment_diffs(
                    aligned_pairs(otail, ntail),
                ));
                assert(seq![e] + Seq::<AssignmentChangesV>::empty() =~= seq![e]);
            },
            None => {
                assert(false);
            },
        }
    } else {
        assert(news[0] == olds[0]);
        lemma_assignment_self_none(olds[0]);
        assert(forall|u: int|
            0 <= u < otail.len() && u != aj - 1 ==> #[trigger] ntail[u] == otail[u]);
        assert(otail[aj - 1] == olds[aj] && ntail[aj - 1] == news[aj]);
        lemma_assignment_diffs_single(otail, ntail, aj - 1);
        assert(assignment_diffs(ap) == assignment_diffs(aligned_pairs(otail, ntail)));
    }
}

/// Course lists that agree except at one differing pair diff to exactly
/// that pair's entry.
proof fn lemma_course_diffs_single(oc: Seq<CourseV>, nc: Seq<CourseV>, ci: int)
    requires
        oc.len() == nc.len(),
        0 <= ci < oc.len(),
        forall|t: int| 0 <= t < oc.len() && t != ci ==> #[trigger] nc[t] == oc[t],
        course_changes_spec(Some(oc[ci]), Some(nc[ci])) is Some,
    ensures
        ({
            match course_changes_spec(Some(oc[ci]), Some(nc[ci])) {
                Some(e) => course_diffs(aligned_pairs(oc, nc)) == seq![e],
                None => false,
            }
        }),
    decreases oc.len(),
{
    let ap = aligned_pairs(oc, nc);
    let otail = oc.subrange(1, oc.len() as int);
    let ntail = nc.subrange(1, nc.len() as int);
    assert(ap.subrange(1, ap.len() as int) =~= aligned_pairs(otail, ntail));
    if ci == 0 {
        match course_changes_spec(Some(oc[0]), Some(nc[0])) {
            Some(e) => {
                assert(otail =~= ntail);
                lemma_course_diffs_self_aligned(otail);
                assert(course_diffs(ap) == seq![e] + course_diffs(aligned_pairs(otail, ntail)));
                assert(seq![e] + Seq::<CourseChangesV>::empty() =~= seq![e]);
            },
            None => {
                assert(false);
            },
        }
    } else {
        assert(nc[0] == oc[0]);
        lemma_course_self_none(oc[0]);
        assert(forall|t: int|
            0 <= t < otail.len() && t != ci - 1 ==> #[trigger] ntail[t] == otail[t]);
        assert(otail[ci - 1] == oc[ci] && ntail[ci - 1] == nc[ci]);
        lemma_course_diffs_single(otail, ntail, ci - 1);
        assert(course_diffs(ap) == course_diffs(aligned_pairs(otail, ntail)));
    }
}

proof fn lemma_course_diffs_self_aligned(s: Seq<CourseV>)
    ensures
        course_diffs(aligned_pairs(s, s)) == Seq::<CourseChangesV>::empty(),
{
    assert(aligned_pairs(s, s) =~= self_pairs(s));
    lemma_course_diffs_self(s);
}

/// A lone assignment change: when two snapshots agree on every course but
/// one, agree on that course's compared fields, and agree on every
/// assignment of its first mark but one — whose compared fields differ —
/// the changeset holds exactly one course entry, carrying exactly that
/// assignment's change list and nothing else.
pub proof fn lemma_lone_assignment_change(o: GradebookV, n: GradebookV, ci: int, aj: int)
    requires
        0 <= ci < o.courses.len(),
        n.courses.len() == o.courses.len(),
        forall|t: int|
            0 <= t < o.courses.len() && t != ci ==> #[trigger] n.courses[t] == o.courses[t],
        o.courses[ci].marks.len() >= 1,
        n.courses[ci].marks.len() >= 1,
        n.courses[ci].title == o.courses[ci].title,
        n.courses[ci].period == o.courses[ci].period,
        n.courses[ci].staff == o.courses[ci].staff,
        n.courses[ci].staff_email == o.courses[ci].staff_email,
        n.courses[ci].marks[0].calculated_score_string
            == o.courses[ci].marks[0].calculated_score_string,
        n.courses[ci].marks[0].assignments.len() == o.courses[ci].marks[0].assignments.len(),
        0 <= aj < o.courses[ci].marks[0].assignments.len(),
        forall|u: int|
            0 <= u < o.courses[ci].marks[0].assignments.len() && u != aj
                ==> #[trigger] n.courses[ci].marks[0].assignments[u]
                == o.courses[ci].marks[0].assignments[u],
        n.courses[ci].marks[0].assignments[aj].gradebook_id
            == o.courses[ci].marks[0].assignments[aj].gradebook_id,
        assignment_changes_list(
            o.courses[ci].marks[0].assignments[aj],
            n.courses[ci].marks[0].assignments[aj],
        ).len() > 0,
    ensures
        changeset_spec(o, n) == Some(
            ChangesetV {
                old: o,
                new: n,
                changes: seq![
                    CourseChangesV {
                        old: Some(o.courses[ci]),
                        new: Some(n.courses[ci]),
                        assignment_changes: Some(
                            seq![
                                AssignmentChangesV {
                                    old: Some(o.courses[ci].marks[0].assignments[aj]),
                                    new: Some(n.courses[ci].marks[0].assignments[aj]),
                                    changes: assignment_changes_list(
                                        o.courses[ci].marks[0].assignments[aj],
                                        n.courses[ci].marks[0].assignments[aj],
                                    ),
                                },
                            ],
                        ),
                        changes: None,
                    },
                ],
            },
        ),
{
    let c = o.courses[ci];
    let d = n.courses[ci];
    let oa = c.marks[0].assignments;
    let na = d.marks[0].assignments;
    let a = oa[aj];
    let b = na[aj];
    // The changed course's entry: no scalar change, one assignment entry.
    assert(course_changes_list(c, d) == Seq::<CourseChangeV>::empty());
    assert forall|u: int|
        0 <= u < oa.len() implies <Assignment as Pairable<Seq<char>>>::vkey(
        #[trigger] oa[u],
    ) == <Assignment as Pairable<Seq<char>>>::vkey(na[u]) by {
        if u != aj {
            assert(na[u] == oa[u]);
        }
    }
    lemma_pair_aligned::<Seq<char>, Assignment>(oa, na);
    let e = AssignmentChangesV {
        old: Some(a),
        new: Some(b),
        changes: assignment_changes_list(a, b),
    };
    assert(assignment_changes_spec(a, b) == Some(e));
    lemma_assignment_diffs_single(oa, na, aj);
    let acs = assignment_diffs(pair_spec::<Seq<char>, Assignment>(oa, na));
    assert(acs == seq![e]);
    let ce = CourseChangesV {
        old: Some(c),
        new: Some(d),
        assignment_changes: Some(acs),
        changes: None,
    };
    assert(course_changes_spec(Some(c), Some(d)) == Some(ce));
    // The course pairing is aligned by title, and only this pair differs.
    assert forall|t: int|
        0 <= t < o.courses.len() implies <Course as Pairable<CourseTitleV>>::vkey(
        #[trigger] o.courses[t],
    ) == <Course as Pairable<CourseTitleV>>::vkey(n.courses[t]) by {
        if t != ci {
            assert(n.courses[t] == o.courses[t]);
        }
    }
    lemma_pair_aligned::<CourseTitleV, Course>(o.courses, n.courses);
    lemma_course_diffs_single(o.courses, n.courses, ci);
    let cds = course_diffs(pair_spec::<CourseTitleV, Course>(o.courses, n.courses));
    assert(cds == seq![ce]);
    assert(changeset_spec(o, n) == Some(ChangesetV { old: o, new: n, changes: cds }));
}

} // verus!
