//! Mini-grammars: small fixed-alternative parsers for free-text fields.
//!
//! Each classifier is best-effort and never fails the outer decode:
//! unmatched text degrades to an `Unparseable` value carrying the raw text.
//! The shapes mirror the portal's conventions: scores like `"8 out of 10"`,
//! points like `"7/10"` or `"10 Points Possible"`, weights like `"40%"`,
//! titles like `"Algebra I (MATH101)"`. A pattern is searched for the way a
//! leftmost-first regex engine would: the earliest start wins, a repetition
//! is greedy, and the title's identifier group is lazy.

use vstd::prelude::*;

use crate::gradebook::AssignmentGradeCalcWeight;
use crate::gradebook::AssignmentGradeCalcWeightV;
use crate::gradebook::AssignmentPoints;
use crate::gradebook::AssignmentPointsV;
use crate::gradebook::AssignmentScore;
use crate::gradebook::AssignmentScoreV;
use crate::gradebook::CourseTitle;
use crate::gradebook::CourseTitleV;
use crate::num::num_run;
use crate::num::parse_dec_spec;
use crate::num::parse_udec_spec;
use crate::num::parse_dec_range;
use crate::num::parse_udec_range;
use crate::num::is_num_char;
use crate::num::num_run_x;
use crate::text::chars_vec;
use crate::text::str_eq;
use crate::text::string_from_range;

verus! {

/// The whitespace characters, as both the pattern class `\s` and the
/// standard trim read them.
pub open spec fn is_space(c: char) -> bool {
    ||| c == ' '
    ||| c == '\t'
    ||| c == '\n'
    ||| c == '\u{b}'
    ||| c == '\u{c}'
    ||| c == '\r'
    ||| c == '\u{85}'
    ||| c == '\u{a0}'
    ||| c == '\u{1680}'
    ||| ('\u{2000}' as int <= c as int && c as int <= '\u{200a}' as int)
    ||| c == '\u{2028}'
    ||| c == '\u{2029}'
    ||| c == '\u{202f}'
    ||| c == '\u{205f}'
    ||| c == '\u{3000}'
}

fn is_space_x(c: char) -> (r: bool)
    ensures
        r == is_space(c),
{
    c == ' ' || c == '\t' || c == '\n' || c == '\u{b}' || c == '\u{c}' || c == '\r'
        || c == '\u{85}' || c == '\u{a0}' || c == '\u{1680}' || (c >= '\u{2000}' && c
        <= '\u{200a}') || c == '\u{2028}' || c == '\u{2029}' || c == '\u{202f}' || c == '\u{205f}'
        || c == '\u{3000}'
}

/// Length of the whitespace run starting at `j`.
pub open spec fn space_run(s: Seq<char>, j: int) -> int
    decreases s.len() - j,
{
    if 0 <= j < s.len() && is_space(s[j]) {
        1 + space_run(s, j + 1)
    } else {
        0
    }
}

fn space_run_x(v: &Vec<char>, j: usize) -> (r: usize)
    requires
        j <= v@.len(),
    ensures
        r as int == space_run(v@, j as int),
        j + r <= v@.len(),
        j + r < v@.len() ==> !is_space(v@[j + r]),
    decreases v@.len() - j,
{
    let mut cur = j;
    while cur < v.len() && is_space_x(v[cur])
        invariant
            j <= cur <= v@.len(),
            space_run(v@, j as int) == (cur - j) + space_run(v@, cur as int),
        decreases v@.len() - cur,
    {
        cur += 1;
    }
    cur - j
}

/// `pat` occurs in `s` at position `i`.
pub open spec fn contains_at(s: Seq<char>, i: int, pat: Seq<char>) -> bool {
    0 <= i && i + pat.len() <= s.len() && s.subrange(i, i + pat.len()) == pat
}

fn matches_at_x(v: &Vec<char>, i: usize, pat: &str) -> (r: bool)
    requires
        i <= v@.len(),
    ensures
        r == contains_at(v@, i as int, pat@),
{
    let n = v.len();
    let m = pat.unicode_len();
    if m > n - i {
        return false;
    }
    let mut k: usize = 0;
    while k < m
        invariant
            k <= m,
            m == pat@.len(),
            n == v@.len(),
            i + m <= n,
            forall|j: int| 0 <= j < k ==> v@[i + j] == pat@[j],
        decreases m - k,
    {
        if v[i + k] != pat.get_char(k) {
            proof {
                assert(v@.subrange(i as int, i + pat@.len())[k as int] != pat@[k as int]);
            }
            return false;
        }
        k += 1;
    }
    proof {
        assert(v@.subrange(i as int, i + pat@.len()) =~= pat@);
    }
    true
}

/// `pat` occurs somewhere in `s`.
pub open spec fn contains_seq(s: Seq<char>, pat: Seq<char>) -> bool {
    exists|i: int| contains_at(s, i, pat)
}

fn contains_x(v: &Vec<char>, pat: &str) -> (r: bool)
    ensures
        r == contains_seq(v@, pat@),
{
    let n = v.len();
    let m = pat.unicode_len();
    if m > n {
        proof {
            assert(forall|i: int| contains_at(v@, i, pat@) ==> i + pat@.len() <= v@.len());
        }
        return false;
    }
    if m == 0 {
        proof {
            assert(v@.subrange(0, 0) =~= pat@);
            assert(contains_at(v@, 0, pat@));
        }
        return true;
    }
    let mut i: usize = 0;
    while i <= n - m
        invariant
            m == pat@.len(),
            1 <= m <= n,
            n == v@.len(),
            i <= n - m + 1,
            forall|j: int| 0 <= j < i ==> !contains_at(v@, j, pat@),
        decreases v@.len() - i,
    {
        if matches_at_x(v, i, pat) {
            return true;
        }
        i += 1;
    }
    proof {
        assert forall|j: int| !contains_at(v@, j, pat@) by {
            if contains_at(v@, j, pat@) {
                assert(0 <= j && j + pat@.len() <= v@.len());
                assert(j < i);
            }
        }
    }
    false
}

// The title pattern: a greedy non-newline name, whitespace, then a
// parenthesized lazy identifier. The match keeps the longest name for
// which the remainder still closes.

/// The first `)` at or after `p`, unless a newline intervenes.
pub open spec fn close_scan(s: Seq<char>, p: int) -> Option<int>
    decreases s.len() - p,
{
    if p < 0 || p >= s.len() {
        None
    } else if s[p] == ')' {
        Some(p)
    } else if s[p] == '\n' {
        None
    } else {
        close_scan(s, p + 1)
    }
}

/// Where the lazy identifier starting at `from` closes: the first `)`
/// after at least one non-newline character.
pub open spec fn close_pos(s: Seq<char>, from: int) -> Option<int> {
    if 0 <= from < s.len() && s[from] != '\n' {
        close_scan(s, from + 1)
    } else {
        None
    }
}

fn close_pos_x(v: &Vec<char>, from: usize) -> (r: Option<usize>)
    requires
        from <= v@.len(),
    ensures
        match r {
            Some(p) => close_pos(v@, from as int) == Some(p as int) && from < p < v@.len(),
            None => close_pos(v@, from as int) is None,
        },
{
    if from >= v.len() || v[from] == '\n' {
        return None;
    }
    let mut p = from + 1;
    while p < v.len()
        invariant
            from + 1 <= p <= v@.len(),
            from < v@.len(),
            v@[from as int] != '\n',
            close_scan(v@, from + 1) == close_scan(v@, p as int),
        decreases v@.len() - p,
    {
        if v[p] == ')' {
            return Some(p);
        }
        if v[p] == '\n' {
            return None;
        }
        p += 1;
    }
    None
}

/// The title pattern matches with a name of length `n`.
pub open spec fn title_match_at(s: Seq<char>, n: int) -> bool {
    &&& 1 <= n < s.len()
    &&& forall|i: int| 0 <= i < n ==> #[trigger] s[i] != '\n'
    &&& ({
        let w = space_run(s, n);
        &&& w >= 1
        &&& n + w < s.len()
        &&& s[n + w] == '('
        &&& close_pos(s, n + w + 1) is Some
    })
}

fn title_match_at_x(v: &Vec<char>, n: usize) -> (r: bool)
    requires
        1 <= n < v@.len(),
    ensures
        r == title_match_at(v@, n as int),
{
    let mut i: usize = 0;
    while i < n
        invariant
            i <= n,
            n < v@.len(),
            forall|j: int| 0 <= j < i ==> #[trigger] v@[j] != '\n',
        decreases n - i,
    {
        if v[i] == '\n' {
            return false;
        }
        i += 1;
    }
    let len = v.len();
    let w = space_run_x(v, n);
    if w == 0 || n + w >= len {
        return false;
    }
    if v[n + w] != '(' {
        return false;
    }
    close_pos_x(v, n + w + 1).is_some()
}

/// The longest name length `n <= start` at which the title pattern
/// matches.
pub open spec fn title_scan(s: Seq<char>, n: int) -> Option<int>
    decreases n,
{
    if n < 1 {
        None
    } else if title_match_at(s, n) {
        Some(n)
    } else {
        title_scan(s, n - 1)
    }
}

/// What the title classifier yields: name and identifier when the pattern
/// matches, the whole text otherwise.
pub open spec fn parse_title_spec(s: Seq<char>) -> CourseTitleV {
    match title_scan(s, s.len() - 4) {
        Some(n) => {
            let w = space_run(s, n);
            match close_pos(s, n + w + 1) {
                Some(p) => CourseTitleV::Parsed(s.subrange(0, n), s.subrange(n + w + 1, p)),
                None => CourseTitleV::Unparseable(s),
            }
        },
        None => CourseTitleV::Unparseable(s),
    }
}

impl CourseTitle {
    /// Splits `"<name> (<id>)"` into its parts; any other shape is kept
    /// whole.
    pub fn parse(title: &str) -> (r: CourseTitle)
        ensures
            r.deep_view() == parse_title_spec(title@),
    {
        let v = chars_vec(title);
        let len = v.len();
        if len >= 5 {
            let mut n: usize = len - 4;
            while n >= 1
                invariant
                    n <= len - 4,
                    len == v@.len(),
                    v@ == title@,
                    title_scan(title@, len - 4) == title_scan(title@, n as int),
                decreases n,
            {
                if title_match_at_x(&v, n) {
                    let w = space_run_x(&v, n);
                    match close_pos_x(&v, n + w + 1) {
                        Some(p) => {
                            let name = string_from_range(&v, 0, n);
                            let id = string_from_range(&v, n + w + 1, p);
                            return CourseTitle::Parsed(name, id);
                        },
                        None => {
                            proof {
                                assert(false);
                            }
                        },
                    }
                }
                n -= 1;
            }
        }
        proof {
            if title@.len() < 5 {
                assert(title_scan(title@, title@.len() - 4) is None);
            }
        }
        CourseTitle::Unparseable(title.to_owned())
    }
}

// The score pattern: a number, `out`, `of`, a number, separated by
// optional whitespace; and the anchored percentage shape.

/// The score pattern matches starting at `i`.
pub open spec fn score_match_at(s: Seq<char>, i: int) -> bool {
    &&& 0 <= i < s.len()
    &&& is_num_char(s[i])
    &&& ({
        let o = i + num_run(s, i) + space_run(s, i + num_run(s, i));
        &&& contains_at(s, o, "out"@)
        &&& ({
            let f = o + 3 + space_run(s, o + 3);
            &&& contains_at(s, f, "of"@)
            &&& ({
                let d = f + 2 + space_run(s, f + 2);
                &&& d < s.len()
                &&& is_num_char(s[d])
            })
        })
    })
}

/// Where the score pattern's second number starts.
pub open spec fn score_den_start(s: Seq<char>, i: int) -> int {
    let o = i + num_run(s, i) + space_run(s, i + num_run(s, i));
    let f = o + 3 + space_run(s, o + 3);
    f + 2 + space_run(s, f + 2)
}

fn score_match_at_x(v: &Vec<char>, i: usize) -> (r: bool)
    requires
        i < v@.len(),
    ensures
        r == score_match_at(v@, i as int),
        r ==> i + num_run(v@, i as int) <= v@.len() && score_den_start(v@, i as int) < v@.len(),
{
    proof {
        reveal_strlit("out");
        reveal_strlit("of");
    }
    let len = v.len();
    if !crate::num::is_num_char_x(v[i]) {
        return false;
    }
    let e = i + num_run_x(v, i);
    let o = e + space_run_x(v, e);
    if !matches_at_x(v, o, "out") {
        return false;
    }
    let f = o + 3 + space_run_x(v, o + 3);
    if !matches_at_x(v, f, "of") {
        return false;
    }
    let d = f + 2 + space_run_x(v, f + 2);
    if d >= len {
        return false;
    }
    crate::num::is_num_char_x(v[d])
}

/// The first position at which the score pattern matches.
pub open spec fn score_scan(s: Seq<char>, i: int) -> Option<int>
    decreases s.len() - i,
{
    if i < 0 || i >= s.len() {
        None
    } else if score_match_at(s, i) {
        Some(i)
    } else {
        score_scan(s, i + 1)
    }
}

/// The anchored percentage shape: a number, optional whitespace, an
/// optional literal `()`, and nothing else.
pub open spec fn percent_shape(s: Seq<char>) -> bool {
    &&& s.len() > 0
    &&& is_num_char(s[0])
    &&& ({
        let t = num_run(s, 0) + space_run(s, num_run(s, 0));
        ||| t == s.len()
        ||| (t + 2 == s.len() && s[t] == '(' && s[t + 1] == ')')
    })
}

fn percent_shape_x(v: &Vec<char>) -> (r: bool)
    ensures
        r == percent_shape(v@),
        r ==> num_run(v@, 0) <= v@.len(),
{
    let len = v.len();
    if len == 0 || !crate::num::is_num_char_x(v[0]) {
        return false;
    }
    let e = num_run_x(v, 0);
    let t = e + space_run_x(v, e);
    if t == len {
        return true;
    }
    len - t == 2 && v[t] == '(' && v[t + 1] == ')'
}

/// What the score classifier yields.
pub open spec fn parse_score_spec(s: Seq<char>) -> AssignmentScoreV {
    if s == "Not Due"@ {
        AssignmentScoreV::NotDue
    } else if s.len() == 0 {
        AssignmentScoreV::NotForGrading
    } else if s == "Not Graded"@ {
        AssignmentScoreV::NotGraded
    } else if s == "See Standards"@ {
        AssignmentScoreV::SeeStandards
    } else {
        match score_scan(s, 0) {
            Some(i) => {
                let num = s.subrange(i, i + num_run(s, i));
                let d = score_den_start(s, i);
                let den = s.subrange(d, d + num_run(s, d));
                match (parse_udec_spec(num), parse_udec_spec(den)) {
                    (Some(a), Some(b)) => AssignmentScoreV::Score(a, b),
                    _ => AssignmentScoreV::Unparseable(s),
                }
            },
            None => {
                if percent_shape(s) {
                    match parse_udec_spec(s.subrange(0, num_run(s, 0))) {
                        Some(p) => AssignmentScoreV::Percentage(p),
                        None => AssignmentScoreV::Unparseable(s),
                    }
                } else {
                    AssignmentScoreV::Unparseable(s)
                }
            },
        }
    }
}

impl AssignmentScore {
    /// Classifies the free-text score field.
    pub fn parse(score: &str) -> (r: AssignmentScore)
        ensures
            r.deep_view() == parse_score_spec(score@),
    {
        if str_eq(score, "Not Due") {
            return AssignmentScore::NotDue;
        }
        let v = chars_vec(score);
        if v.len() == 0 {
            return AssignmentScore::NotForGrading;
        }
        if str_eq(score, "Not Graded") {
            return AssignmentScore::NotGraded;
        }
        if str_eq(score, "See Standards") {
            return AssignmentScore::SeeStandards;
        }
        let len = v.len();
        let mut i: usize = 0;
        while i < len
            invariant
                i <= len,
                len == v@.len(),
                v@ == score@,
                score_scan(score@, 0int) == score_scan(score@, i as int),
                score@ != "Not Due"@,
                score@.len() > 0,
                score@ != "Not Graded"@,
                score@ != "See Standards"@,
            decreases len - i,
        {
            if score_match_at_x(&v, i) {
                let e = i + num_run_x(&v, i);
                let d = {
                    let o = e + space_run_x(&v, e);
                    let f = o + 3 + space_run_x(&v, o + 3);
                    f + 2 + space_run_x(&v, f + 2)
                };
                let d2 = d + num_run_x(&v, d);
                let a = parse_udec_range(&v, i, e);
                let b = parse_udec_range(&v, d, d2);
                match (a, b) {
                    (Some(x), Some(y)) => {
                        return AssignmentScore::Score(x, y);
                    },
                    _ => {
                        return AssignmentScore::Unparseable(score.to_owned());
                    },
                }
            }
            i += 1;
        }
        if percent_shape_x(&v) {
            let e = num_run_x(&v, 0);
            match parse_udec_range(&v, 0, e) {
                Some(p) => AssignmentScore::Percentage(p),
                None => AssignmentScore::Unparseable(score.to_owned()),
            }
        } else {
            AssignmentScore::Unparseable(score.to_owned())
        }
    }
}

// The points patterns: a number before `Points Possible`, or a
// slash-separated fraction.

/// The ungraded-points pattern matches starting at `i`.
pub open spec fn points_match_at(s: Seq<char>, i: int) -> bool {
    &&& 0 <= i < s.len()
    &&& is_num_char(s[i])
    &&& ({
        let p = i + num_run(s, i) + space_run(s, i + num_run(s, i));
        &&& contains_at(s, p, "Points"@)
        &&& contains_at(s, p + 6 + space_run(s, p + 6), "Possible"@)
    })
}

fn points_match_at_x(v: &Vec<char>, i: usize) -> (r: bool)
    requires
        i < v@.len(),
    ensures
        r == points_match_at(v@, i as int),
        r ==> i + num_run(v@, i as int) <= v@.len(),
{
    proof {
        reveal_strlit("Points");
        reveal_strlit("Possible");
    }
    let len = v.len();
    if !crate::num::is_num_char_x(v[i]) {
        return false;
    }
    let e = i + num_run_x(v, i);
    let p = e + space_run_x(v, e);
    if !matches_at_x(v, p, "Points") {
        return false;
    }
    let q = p + 6 + space_run_x(v, p + 6);
    matches_at_x(v, q, "Possible")
}

/// The first position at which the ungraded-points pattern matches.
pub open spec fn points_scan(s: Seq<char>, i: int) -> Option<int>
    decreases s.len() - i,
{
    if i < 0 || i >= s.len() {
        None
    } else if points_match_at(s, i) {
        Some(i)
    } else {
        points_scan(s, i + 1)
    }
}

/// The fraction pattern matches starting at `i`.
pub open spec fn frac_match_at(s: Seq<char>, i: int) -> bool {
    &&& 0 <= i < s.len()
    &&& is_num_char(s[i])
    &&& ({
        let sl = i + num_run(s, i) + space_run(s, i + num_run(s, i));
        &&& sl < s.len()
        &&& s[sl] == '/'
        &&& ({
            let d = sl + 1 + space_run(s, sl + 1);
            &&& d < s.len()
            &&& is_num_char(s[d])
        })
    })
}

/// Where the fraction pattern's denominator starts.
pub open spec fn frac_den_start(s: Seq<char>, i: int) -> int {
    let sl = i + num_run(s, i) + space_run(s, i + num_run(s, i));
    sl + 1 + space_run(s, sl + 1)
}

fn frac_match_at_x(v: &Vec<char>, i: usize) -> (r: bool)
    requires
        i < v@.len(),
    ensures
        r == frac_match_at(v@, i as int),
        r ==> i + num_run(v@, i as int) <= v@.len() && frac_den_start(v@, i as int) < v@.len(),
{
    let len = v.len();
    if !crate::num::is_num_char_x(v[i]) {
        return false;
    }
    let e = i + num_run_x(v, i);
    let sl = e + space_run_x(v, e);
    if sl >= len || v[sl] != '/' {
        return false;
    }
    let d = sl + 1 + space_run_x(v, sl + 1);
    if d >= len {
        return false;
    }
    crate::num::is_num_char_x(v[d])
}

/// The first position at which the fraction pattern matches.
pub open spec fn frac_scan(s: Seq<char>, i: int) -> Option<int>
    decreases s.len() - i,
{
    if i < 0 || i >= s.len() {
        None
    } else if frac_match_at(s, i) {
        Some(i)
    } else {
        frac_scan(s, i + 1)
    }
}

/// What the points classifier yields.
pub open spec fn parse_points_spec(s: Seq<char>) -> AssignmentPointsV {
    if contains_seq(s, "Points Possible"@) {
        match points_scan(s, 0) {
            Some(i) => match parse_udec_spec(s.subrange(i, i + num_run(s, i))) {
                Some(n) => AssignmentPointsV::Ungraded(n),
                None => AssignmentPointsV::Unparseable(s),
            },
            None => AssignmentPointsV::Unparseable(s),
        }
    } else {
        match frac_scan(s, 0) {
            Some(i) => {
                let d = frac_den_start(s, i);
                match (
                    parse_udec_spec(s.subrange(i, i + num_run(s, i))),
                    parse_udec_spec(s.subrange(d, d + num_run(s, d))),
                ) {
                    (Some(a), Some(b)) => AssignmentPointsV::Graded(a, b),
                    _ => AssignmentPointsV::Unparseable(s),
                }
            },
            None => AssignmentPointsV::Unparseable(s),
        }
    }
}

impl AssignmentPoints {
    /// Classifies the free-text points field.
    pub fn parse(points: &str) -> (r: AssignmentPoints)
        ensures
            r.deep_view() == parse_points_spec(points@),
    {
        let v = chars_vec(points);
        let len = v.len();
        if contains_x(&v, "Points Possible") {
            let mut i: usize = 0;
            while i < len
                invariant
                    i <= len,
                    len == v@.len(),
                    v@ == points@,
                    contains_seq(points@, "Points Possible"@),
                    points_scan(points@, 0int) == points_scan(points@, i as int),
                decreases len - i,
            {
                if points_match_at_x(&v, i) {
                    let e = i + num_run_x(&v, i);
                    return match parse_udec_range(&v, i, e) {
                        Some(n) => AssignmentPoints::Ungraded(n),
                        None => AssignmentPoints::Unparseable(points.to_owned()),
                    };
                }
                i += 1;
            }
            AssignmentPoints::Unparseable(points.to_owned())
        } else {
            let mut i: usize = 0;
            while i < len
                invariant
                    i <= len,
                    len == v@.len(),
                    v@ == points@,
                    !contains_seq(points@, "Points Possible"@),
                    frac_scan(points@, 0int) == frac_scan(points@, i as int),
                decreases len - i,
            {
                if frac_match_at_x(&v, i) {
                    let e = i + num_run_x(&v, i);
                    let d = {
                        let sl = e + space_run_x(&v, e);
                        sl + 1 + space_run_x(&v, sl + 1)
                    };
                    let d2 = d + num_run_x(&v, d);
                    return match (parse_udec_range(&v, i, e), parse_udec_range(&v, d, d2)) {
                        (Some(a), Some(b)) => AssignmentPoints::Graded(a, b),
                        _ => AssignmentPoints::Unparseable(points.to_owned()),
                    };
                }
                i += 1;
            }
            AssignmentPoints::Unparseable(points.to_owned())
        }
    }
}

// The weight classifier: trim, then accept a number followed by trailing
// percent signs.

/// How many characters at the end of `s` satisfy `p`.
pub open spec fn trail_matching(s: Seq<char>, p: spec_fn(char) -> bool) -> int
    decreases s.len(),
{
    if s.len() > 0 && p(s.last()) {
        1 + trail_matching(s.drop_last(), p)
    } else {
        0
    }
}

proof fn lemma_trail_matching(s: Seq<char>, p: spec_fn(char) -> bool, h: int)
    requires
        0 <= h <= s.len(),
        forall|i: int| h <= i < s.len() ==> p(#[trigger] s[i]),
        h > 0 ==> !p(s[h - 1]),
    ensures
        trail_matching(s, p) == s.len() - h,
    decreases s.len(),
{
    if s.len() > h {
        assert(p(s.last()));
        lemma_trail_matching(s.drop_last(), p, h);
    }
}

/// `s` with leading and trailing whitespace removed.
pub open spec fn trimmed(s: Seq<char>) -> Seq<char> {
    if space_run(s, 0) >= s.len() {
        Seq::empty()
    } else {
        s.subrange(space_run(s, 0), s.len() - trail_matching(s, |c: char| is_space(c)))
    }
}

/// What the weight classifier yields: a percentage when the trimmed text
/// ends in `%` and the part before the percent signs is a number, the
/// trimmed text otherwise.
pub open spec fn parse_weight_spec(s: Seq<char>) -> AssignmentGradeCalcWeightV {
    let t = trimmed(s);
    let k = trail_matching(t, |c: char| c == '%');
    if k > 0 {
        match parse_dec_spec(t.subrange(0, t.len() - k)) {
            Some(d) => AssignmentGradeCalcWeightV::Percentage(d),
            None => AssignmentGradeCalcWeightV::Unparseable(t),
        }
    } else {
        AssignmentGradeCalcWeightV::Unparseable(t)
    }
}

impl AssignmentGradeCalcWeight {
    /// Classifies the free-text weight field.
    pub fn parse(weight: &str) -> (r: AssignmentGradeCalcWeight)
        ensures
            r.deep_view() == parse_weight_spec(weight@),
    {
        let v = chars_vec(weight);
        let len = v.len();
        let lo = space_run_x(&v, 0);
        if lo >= len {
            proof {
                assert(trimmed(weight@) =~= Seq::<char>::empty());
            }
            return AssignmentGradeCalcWeight::Unparseable(String::new());
        }
        let mut hi = len;
        while hi > lo && is_space_x(v[hi - 1])
            invariant
                lo <= hi <= len,
                len == v@.len(),
                forall|j: int| hi <= j < len ==> is_space(#[trigger] v@[j]),
            decreases hi,
        {
            hi -= 1;
        }
        proof {
            assert(!is_space(v@[lo as int]));
            assert(hi > lo);
            lemma_trail_matching(v@, |c: char| is_space(c), hi as int);
            assert(trimmed(weight@) == v@.subrange(lo as int, hi as int));
        }
        let ghost t = trimmed(weight@);
        let mut k = hi;
        while k > lo && v[k - 1] == '%'
            invariant
                lo <= k <= hi <= len,
                len == v@.len(),
                forall|j: int| k <= j < hi ==> #[trigger] v@[j] == '%',
            decreases k,
        {
            k -= 1;
        }
        proof {
            assert forall|j: int| (k - lo) <= j < t.len() implies (#[trigger] t[j]) == '%' by {
                assert(t[j] == v@[lo + j]);
            }
            if k > lo {
                assert(t[k - lo - 1] == v@[k - 1]);
            }
            lemma_trail_matching(t, |c: char| c == '%', k - lo as int);
            assert(trail_matching(t, |c: char| c == '%') == hi - k);
        }
        if k == hi {
            return AssignmentGradeCalcWeight::Unparseable(string_from_range(&v, lo, hi));
        }
        proof {
            assert(t.subrange(0, t.len() - (hi - k)) =~= v@.subrange(lo as int, k as int));
        }
        match parse_dec_range(&v, lo, k) {
            Some(d) => AssignmentGradeCalcWeight::Percentage(d),
            None => AssignmentGradeCalcWeight::Unparseable(string_from_range(&v, lo, hi)),
        }
    }
}

} // verus!
