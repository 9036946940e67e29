//! Plain-value model of the numeric fields of the gradebook.
//!
//! The portal transmits every number as text (`"8"`, `"7.5"`, `"95.2"`).
//! The library holds such a number as a normalized decimal fraction
//! `mantissa / 10^scale`, so that two spellings of the same quantity
//! (`"7.5"`, `"7.50"`, `"07.5"`) decode to equal values.

use vstd::prelude::*;

verus! {

/// A decimal number `(-1)^negative * mantissa / 10^scale`, kept normalized:
/// no trailing fractional zeroes, and zero is never negative.
#[derive(Clone, Copy, Debug, PartialEq, Eq, Structural)]
pub struct Decimal {
    pub negative: bool,
    pub mantissa: u64,
    pub scale: u32,
}

impl DeepView for Decimal {
    type V = Decimal;

    open spec fn deep_view(&self) -> Decimal {
        *self
    }
}

impl Decimal {
    /// Normalization invariant.
    pub open spec fn wf(self) -> bool {
        &&& (self.scale == 0 || self.mantissa % 10 != 0)
        &&& (self.mantissa == 0 ==> !self.negative && self.scale == 0)
    }
}

pub open spec fn is_digit(c: char) -> bool {
    '0' as int <= c as int && c as int <= '9' as int
}

pub open spec fn digit_val(c: char) -> int {
    c as int - '0' as int
}

/// A digit or a dot: the characters a number pattern may contain.
pub open spec fn is_num_char(c: char) -> bool {
    is_digit(c) || c == '.'
}

pub fn is_num_char_x(c: char) -> (r: bool)
    ensures
        r == is_num_char(c),
{
    (c >= '0' && c <= '9') || c == '.'
}

/// Length of the run of digits and dots starting at `j`.
pub open spec fn num_run(s: Seq<char>, j: int) -> int
    decreases s.len() - j,
{
    if 0 <= j < s.len() && is_num_char(s[j]) {
        1 + num_run(s, j + 1)
    } else {
        0
    }
}

pub fn num_run_x(v: &Vec<char>, j: usize) -> (r: usize)
    requires
        j <= v@.len(),
    ensures
        r as int == num_run(v@, j as int),
        j + r <= v@.len(),
    decreases v@.len() - j,
{
    let mut cur = j;
    while cur < v.len() && is_num_char_x(v[cur])
        invariant
            j <= cur <= v@.len(),
            num_run(v@, j as int) == (cur - j) + num_run(v@, cur as int),
        decreases v@.len() - cur,
    {
        cur += 1;
    }
    cur - j
}

pub open spec fn all_digits(s: Seq<char>) -> bool {
    forall|i: int| 0 <= i < s.len() ==> is_digit(#[trigger] s[i])
}

/// The number denoted by a sequence of decimal digits, most significant first.
pub open spec fn digits_val(s: Seq<char>) -> int
    decreases s.len(),
{
    if s.len() == 0 {
        0
    } else {
        digits_val(s.drop_last()) * 10 + digit_val(s.last())
    }
}

/// Index of the first `'.'`, if any.
pub open spec fn first_dot(s: Seq<char>) -> Option<int>
    decreases s.len(),
{
    if s.len() == 0 {
        None
    } else if s[0] == '.' {
        Some(0int)
    } else {
        match first_dot(s.subrange(1, s.len() as int)) {
            Some(k) => Some(k + 1),
            None => None,
        }
    }
}

/// At most one `'.'` occurs in `s`.
pub open spec fn single_dot(s: Seq<char>) -> bool {
    match first_dot(s) {
        Some(k) => forall|i: int| k < i < s.len() ==> #[trigger] s[i] != '.',
        None => true,
    }
}

/// Number of digits to the right of the dot.
pub open spec fn scale_of(s: Seq<char>) -> int {
    match first_dot(s) {
        Some(k) => s.len() - 1 - k,
        None => 0,
    }
}

/// The digit characters of `s`, the dot dropped.
pub open spec fn non_dot(s: Seq<char>) -> Seq<char> {
    s.filter(|c: char| c != '.')
}

/// Strip trailing fractional zeroes.
pub open spec fn norm(m: int, sc: int) -> (int, int)
    decreases sc,
{
    if sc > 0 && m % 10 == 0 {
        norm(m / 10, sc - 1)
    } else {
        (m, sc)
    }
}

/// The shape an unsigned decimal literal must have: only digits and at most
/// one dot, with at least one digit.
pub open spec fn udec_shape(s: Seq<char>) -> bool {
    &&& forall|i: int| 0 <= i < s.len() ==> is_digit(#[trigger] s[i]) || s[i] == '.'
    &&& single_dot(s)
    &&& non_dot(s).len() > 0
}

/// What an unsigned decimal literal denotes: `None` when the shape is wrong
/// or the digits do not fit the representation.
pub open spec fn parse_udec_spec(s: Seq<char>) -> Option<Decimal> {
    if udec_shape(s) && digits_val(non_dot(s)) <= u64::MAX && scale_of(s) <= u32::MAX {
        let p = norm(digits_val(non_dot(s)), scale_of(s));
        Some(Decimal { negative: false, mantissa: p.0 as u64, scale: p.1 as u32 })
    } else {
        None
    }
}

/// A decimal literal with an optional leading sign.
pub open spec fn parse_dec_spec(s: Seq<char>) -> Option<Decimal> {
    if s.len() > 0 && (s[0] == '+' || s[0] == '-') {
        match parse_udec_spec(s.subrange(1, s.len() as int)) {
            Some(d) => Some(
                Decimal {
                    negative: s[0] == '-' && d.mantissa != 0,
                    mantissa: d.mantissa,
                    scale: d.scale,
                },
            ),
            None => None,
        }
    } else {
        parse_udec_spec(s)
    }
}

/// The digit part of a signed integer literal: everything after the sign.
pub open spec fn int_digits(s: Seq<char>) -> Seq<char> {
    if s.len() > 0 && (s[0] == '+' || s[0] == '-') {
        s.subrange(1, s.len() as int)
    } else {
        s
    }
}

/// Whether a signed integer literal carries a minus sign.
pub open spec fn int_neg(s: Seq<char>) -> bool {
    s.len() > 0 && s[0] == '-'
}

/// What a signed integer literal denotes as an `i8`, as the decimal
/// string-to-integer conversion reads it.
pub open spec fn parse_i8_spec(s: Seq<char>) -> Option<i8> {
    if int_digits(s).len() > 0 && all_digits(int_digits(s)) {
        if int_neg(s) && digits_val(int_digits(s)) <= 128 {
            Some((-digits_val(int_digits(s))) as i8)
        } else if !int_neg(s) && digits_val(int_digits(s)) <= 127 {
            Some(digits_val(int_digits(s)) as i8)
        } else {
            None
        }
    } else {
        None
    }
}

proof fn lemma_i8_not_digits(s: Seq<char>)
    requires
        !all_digits(int_digits(s)),
    ensures
        parse_i8_spec(s) is None,
{
}

pub proof fn lemma_digits_val_nonneg(s: Seq<char>)
    requires
        all_digits(s),
    ensures
        digits_val(s) >= 0,
    decreases s.len(),
{
    if s.len() > 0 {
        assert(all_digits(s.drop_last()));
        lemma_digits_val_nonneg(s.drop_last());
        assert(digits_val(s.drop_last()) * 10 >= 0) by (nonlinear_arith)
            requires
                digits_val(s.drop_last()) >= 0,
        ;
    }
}

/// Extending a digit string on the right never shrinks its value.
pub proof fn lemma_digits_val_prefix(s: Seq<char>, j: int)
    requires
        all_digits(s),
        0 <= j <= s.len(),
    ensures
        digits_val(s.subrange(0, j)) <= digits_val(s),
        digits_val(s.subrange(0, j)) >= 0,
    decreases s.len() - j,
{
    lemma_digits_val_nonneg(s.subrange(0, j));
    if j < s.len() {
        let p = s.subrange(0, j);
        let q = s.subrange(0, j + 1);
        assert(q.drop_last() =~= p);
        assert(digits_val(q) == digits_val(p) * 10 + digit_val(q.last()));
        assert(digits_val(p) * 10 + digit_val(q.last()) >= digits_val(p)) by (nonlinear_arith)
            requires
                digits_val(p) >= 0,
                digit_val(q.last()) >= 0,
        ;
        lemma_digits_val_prefix(s, j + 1);
    } else {
        assert(s.subrange(0, j) =~= s);
    }
}

pub proof fn lemma_first_dot_props(s: Seq<char>)
    ensures
        match first_dot(s) {
            Some(k) => 0 <= k < s.len() && s[k] == '.' && (forall|i: int|
                0 <= i < k ==> #[trigger] s[i] != '.'),
            None => forall|i: int| 0 <= i < s.len() ==> #[trigger] s[i] != '.',
        },
    decreases s.len(),
{
    if s.len() > 0 && s[0] != '.' {
        let t = s.subrange(1, s.len() as int);
        lemma_first_dot_props(t);
        match first_dot(t) {
            Some(k) => {
                assert(first_dot(s) == Some(k + 1));
                assert(s[k + 1] == t[k]);
                assert forall|i: int| 0 <= i < k + 1 implies #[trigger] s[i] != '.' by {
                    if i >= 1 {
                        assert(t[i - 1] != '.');
                    }
                }
            }
            None => {
                assert(first_dot(s) is None);
                assert forall|i: int| 0 <= i < s.len() implies #[trigger] s[i] != '.' by {
                    if i >= 1 {
                        assert(t[i - 1] != '.');
                    }
                }
            }
        }
    }
}

/// Appending a character to a string extends its digit characters accordingly.
pub proof fn lemma_non_dot_push(p: Seq<char>, c: char)
    ensures
        c != '.' ==> non_dot(p.push(c)) == non_dot(p).push(c),
        c == '.' ==> non_dot(p.push(c)) == non_dot(p),
{
    reveal(Seq::filter);
    assert(p.push(c).drop_last() =~= p);
    assert(p.push(c).last() == c);
}

/// When every character is a digit or a dot, the dot-free part is all digits.
pub proof fn lemma_non_dot_all_digits(s: Seq<char>)
    requires
        forall|i: int| 0 <= i < s.len() ==> is_digit(#[trigger] s[i]) || s[i] == '.',
    ensures
        all_digits(non_dot(s)),
    decreases s.len(),
{
    reveal(Seq::filter);
    if s.len() > 0 {
        assert(forall|i: int|
            0 <= i < s.drop_last().len() ==> is_digit(#[trigger] s.drop_last()[i])
                || s.drop_last()[i] == '.');
        lemma_non_dot_all_digits(s.drop_last());
        if s.last() != '.' {
            assert(non_dot(s) == non_dot(s.drop_last()).push(s.last()));
        }
    }
}

/// The digits of a prefix never denote more than the digits of the whole.
pub proof fn lemma_non_dot_prefix_bound(s: Seq<char>, j: int)
    requires
        forall|i: int| 0 <= i < s.len() ==> is_digit(#[trigger] s[i]) || s[i] == '.',
        0 <= j <= s.len(),
    ensures
        digits_val(non_dot(s.subrange(0, j))) <= digits_val(non_dot(s)),
{
    let a = s.subrange(0, j);
    let b = s.subrange(j, s.len() as int);
    assert(s =~= a + b);
    Seq::<char>::filter_distributes_over_add(a, b, |c: char| c != '.');
    lemma_non_dot_all_digits(s);
    assert(non_dot(s) == non_dot(a) + non_dot(b));
    assert((non_dot(a) + non_dot(b)).subrange(0, non_dot(a).len() as int) =~= non_dot(a));
    lemma_digits_val_prefix(non_dot(s), non_dot(a).len() as int);
}

/// Reads an unsigned decimal literal out of `v[lo..hi]`.
pub fn parse_udec_range(v: &Vec<char>, lo: usize, hi: usize) -> (r: Option<Decimal>)
    requires
        lo <= hi <= v@.len(),
    ensures
        r == parse_udec_spec(v@.subrange(lo as int, hi as int)),
{
    let ghost s = v@.subrange(lo as int, hi as int);
    let mut i = lo;
    let mut m: u64 = 0;
    let mut ndigits: usize = 0;
    let mut dot: Option<usize> = None;
    while i < hi
        invariant
            lo <= i <= hi <= v@.len(),
            s == v@.subrange(lo as int, hi as int),
            forall|j: int| lo <= j < i ==> is_digit(#[trigger] v@[j]) || v@[j] == '.',
            match dot {
                Some(k) => lo <= k < i && v@[k as int] == '.' && (forall|j: int|
                    lo <= j < i && j != k ==> #[trigger] v@[j] != '.'),
                None => forall|j: int| lo <= j < i ==> #[trigger] v@[j] != '.',
            },
            m as int == digits_val(non_dot(v@.subrange(lo as int, i as int))),
            ndigits == non_dot(v@.subrange(lo as int, i as int)).len(),
        decreases hi - i,
    {
        let ghost p = v@.subrange(lo as int, i as int);
        let c = v[i];
        proof {
            assert(v@.subrange(lo as int, i + 1) =~= p.push(c));
            lemma_non_dot_push(p, c);
        }
        if c == '.' {
            if dot.is_some() {
                proof {
                    let k = dot->0;
                    lemma_first_dot_props(s);
                    assert(s[k - lo] == '.');
                    assert(s[i - lo] == '.');
                    assert(!single_dot(s));
                }
                return None;
            }
            dot = Some(i);
        } else {
            if c < '0' || c > '9' {
                proof {
                    assert(s[i - lo] == c);
                    assert(!(is_digit(c) || c == '.'));
                    assert(!udec_shape(s));
                }
                return None;
            }
            let d: u64 = (c as u32 - 48) as u64;
            proof {
                assert(is_digit(c));
                let nd = non_dot(p).push(c);
                assert(nd.drop_last() =~= non_dot(p));
                assert(nd.last() == c);
                assert(digits_val(nd) == digits_val(non_dot(p)) * 10 + digit_val(c));
            }
            let step = match m.checked_mul(10) {
                Some(m10) => m10.checked_add(d),
                None => None,
            };
            match step {
                Some(m2) => {
                    m = m2;
                    ndigits = ndigits + 1;
                }
                None => {
                    proof {
                        if udec_shape(s) {
                            let q = p.push(c);
                            assert(digits_val(non_dot(q)) == m as int * 10 + d as int);
                            assert(s.subrange(0, i + 1 - lo) =~= v@.subrange(lo as int, i + 1));
                            lemma_non_dot_prefix_bound(s, i + 1 - lo);
                            assert(m as int * 10 + d as int > u64::MAX) by (nonlinear_arith)
                                requires
                                    m as int * 10 > u64::MAX || m as int * 10 + d as int
                                        > u64::MAX,
                                    d >= 0,
                            ;
                            assert(digits_val(non_dot(s)) > u64::MAX);
                        }
                    }
                    return None;
                }
            }
        }
        i += 1;
    }
    proof {
        assert(v@.subrange(lo as int, i as int) =~= s);
    }
    if ndigits == 0 {
        return None;
    }
    let sc_big: usize = match dot {
        Some(k) => {
            proof {
                lemma_first_dot_props(s);
                let k0 = dot->0;
                assert(s[k0 - lo] == '.');
                assert(first_dot(s) == Some(k0 - lo as int));
            }
            hi - 1 - k
        }
        None => {
            proof {
                lemma_first_dot_props(s);
                assert(first_dot(s) is None);
            }
            0
        }
    };
    proof {
        assert(sc_big as int == scale_of(s));
    }
    if sc_big > u32::MAX as usize {
        return None;
    }
    let mut sc: u32 = sc_big as u32;
    let ghost m0 = m as int;
    let ghost sc0 = sc as int;
    while sc > 0 && m % 10 == 0
        invariant
            norm(m0, sc0) == norm(m as int, sc as int),
        decreases sc,
    {
        m = m / 10;
        sc = sc - 1;
    }
    proof {
        assert(norm(m as int, sc as int) == (m as int, sc as int));
        assert(udec_shape(s));
    }
    Some(Decimal { negative: false, mantissa: m, scale: sc })
}

/// Reads a decimal literal with an optional leading sign out of `v[lo..hi]`.
pub fn parse_dec_range(v: &Vec<char>, lo: usize, hi: usize) -> (r: Option<Decimal>)
    requires
        lo <= hi <= v@.len(),
    ensures
        r == parse_dec_spec(v@.subrange(lo as int, hi as int)),
{
    let ghost s = v@.subrange(lo as int, hi as int);
    if lo < hi && (v[lo] == '+' || v[lo] == '-') {
        let neg = v[lo] == '-';
        proof {
            assert(s.subrange(1, s.len() as int) =~= v@.subrange(lo + 1, hi as int));
        }
        match parse_udec_range(v, lo + 1, hi) {
            Some(d) => Some(
                Decimal {
                    negative: neg && d.mantissa != 0,
                    mantissa: d.mantissa,
                    scale: d.scale,
                },
            ),
            None => None,
        }
    } else {
        parse_udec_range(v, lo, hi)
    }
}

/// Reads a decimal literal with an optional leading sign.
pub fn parse_decimal(s: &str) -> (r: Option<Decimal>)
    ensures
        r == parse_dec_spec(s@),
{
    let v = crate::text::chars_vec(s);
    let n = v.len();
    proof {
        assert(v@.subrange(0, n as int) =~= s@);
    }
    parse_dec_range(&v, 0, n)
}

/// Reads a signed integer literal as an `i8`.
pub fn parse_i8(s: &str) -> (r: Option<i8>)
    ensures
        r == parse_i8_spec(s@),
{
    let v = crate::text::chars_vec(s);
    let n = v.len();
    let mut start: usize = 0;
    let mut neg = false;
    if n > 0 && (v[0] == '+' || v[0] == '-') {
        neg = v[0] == '-';
        start = 1;
    }
    let ghost ds = int_digits(s@);
    proof {
        assert(start == 0 ==> ds =~= v@.subrange(start as int, n as int));
        assert(start == 1 ==> ds =~= v@.subrange(start as int, n as int));
    }
    if start == n {
        return None;
    }
    let mut i = start;
    let mut m: u64 = 0;
    while i < n
        invariant
            start <= i <= n,
            n == v@.len(),
            v@ == s@,
            ds == int_digits(s@),
            ds == v@.subrange(start as int, n as int),
            forall|j: int| start <= j < i ==> is_digit(#[trigger] v@[j]),
            m as int == digits_val(v@.subrange(start as int, i as int)),
            m <= 128,
        decreases n - i,
    {
        let ghost p = v@.subrange(start as int, i as int);
        let c = v[i];
        proof {
            assert(v@.subrange(start as int, i + 1) =~= p.push(c));
        }
        if c < '0' || c > '9' {
            proof {
                assert(ds[i - start] == c);
                assert(!is_digit(c));
                assert(!all_digits(ds));
                lemma_i8_not_digits(s@);
            }
            return None;
        }
        let d: u64 = (c as u32 - 48) as u64;
        proof {
            assert(is_digit(c));
            let q = p.push(c);
            assert(q.drop_last() =~= p);
            assert(q.last() == c);
            assert(digits_val(q) == digits_val(p) * 10 + digit_val(c));
        }
        let m2 = m * 10 + d;
        if m2 > 128 {
            proof {
                if all_digits(ds) {
                    assert(ds.subrange(0, i + 1 - start) =~= p.push(c));
                    lemma_digits_val_prefix(ds, i + 1 - start);
                    assert(digits_val(ds) > 128);
                }
            }
            return None;
        }
        m = m2;
        i += 1;
    }
    proof {
        assert(v@.subrange(start as int, i as int) =~= ds);
        assert forall|j: int| 0 <= j < ds.len() implies is_digit(#[trigger] ds[j]) by {
            assert(ds[j] == v@[j + start]);
        }
        assert(all_digits(ds));
        lemma_digits_val_nonneg(ds);
    }
    if neg {
        Some((-(m as i16)) as i8)
    } else {
        if m > 127 {
            return None;
        }
        Some(m as i8)
    }
}

} // verus!


