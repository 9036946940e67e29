//! Attribute extraction and typed attribute parsing, shared by every
//! entity decoder.
//!
//! An element's attribute list acts as a name-to-value lookup in which a
//! repeated name keeps its last value. The typed getters turn attribute
//! text into integers, decimals, booleans and dates, each failure carrying
//! the attribute's name.

use vstd::prelude::*;
use chrono::Datelike;

use crate::events::Event;
use crate::events::EventV;
use crate::num::Decimal;
use crate::num::parse_dec_spec;
use crate::num::parse_i8_spec;
use crate::text::str_eq;

verus! {

/// A calendar date as plain values.
#[derive(Clone, Copy, Debug, PartialEq, Eq, Structural)]
pub struct Date {
    pub year: i32,
    pub month: u32,
    pub day: u32,
}

impl DeepView for Date {
    type V = Date;

    open spec fn deep_view(&self) -> Date {
        *self
    }
}

/// Why a decode call failed. Every variant is terminal for the decode that
/// produced it.
#[derive(Debug)]
pub enum DecodingError {
    /// An attribute was present but not parseable as a boolean; carries the
    /// attribute name and the raw text.
    BoolParseError(String, String),
    /// An attribute was present but not a valid `M/D/YYYY` date.
    DateParseError(String, String),
    /// The portal's own error record could not be decoded; carries the
    /// payload it was found in.
    SVUEErrorParsingFailed(String),
    /// The tokenizer reported malformed markup; carries its message.
    EventError(String),
    /// An attribute was present but not parseable as a decimal number.
    FloatParseError(String, String),
    /// An attribute was present but not parseable as an integer.
    IntegerParseError(String, String),
    /// A required attribute was absent; carries the attribute name.
    MissingAttribute(String),
    /// The event sequence ended before a required closing tag.
    UnexpectedEnd,
    /// An event arrived where the protocol did not expect one.
    UnexpectedEvent(Event),
}

/// The mathematical value of a [`DecodingError`].
pub enum DecodingErrorV {
    BoolParseError(Seq<char>, Seq<char>),
    DateParseError(Seq<char>, Seq<char>),
    SVUEErrorParsingFailed(Seq<char>),
    EventError(Seq<char>),
    FloatParseError(Seq<char>, Seq<char>),
    IntegerParseError(Seq<char>, Seq<char>),
    MissingAttribute(Seq<char>),
    UnexpectedEnd,
    UnexpectedEvent(EventV),
}

impl DeepView for DecodingError {
    type V = DecodingErrorV;

    open spec fn deep_view(&self) -> DecodingErrorV {
        match self {
            DecodingError::BoolParseError(a, v) => DecodingErrorV::BoolParseError(a@, v@),
            DecodingError::DateParseError(a, v) => DecodingErrorV::DateParseError(a@, v@),
            DecodingError::SVUEErrorParsingFailed(x) => DecodingErrorV::SVUEErrorParsingFailed(
                x@,
            ),
            DecodingError::EventError(m) => DecodingErrorV::EventError(m@),
            DecodingError::FloatParseError(a, v) => DecodingErrorV::FloatParseError(a@, v@),
            DecodingError::IntegerParseError(a, v) => DecodingErrorV::IntegerParseError(a@, v@),
            DecodingError::MissingAttribute(a) => DecodingErrorV::MissingAttribute(a@),
            DecodingError::UnexpectedEnd => DecodingErrorV::UnexpectedEnd,
            DecodingError::UnexpectedEvent(e) => DecodingErrorV::UnexpectedEvent(e.deep_view()),
        }
    }
}

pub type DecoderResult<T> = Result<T, DecodingError>;

/// The deep view of a `Result`, both sides viewed.
pub open spec fn deep_res<T: DeepView, E: DeepView>(r: Result<T, E>) -> Result<T::V, E::V> {
    match r {
        Ok(t) => Ok(t.deep_view()),
        Err(e) => Err(e.deep_view()),
    }
}

/// Looks a name up in an attribute list; on a repeated name the last value
/// wins.
pub open spec fn attr_lookup(attrs: Seq<(Seq<char>, Seq<char>)>, name: Seq<char>) -> Option<
    Seq<char>,
>
    decreases attrs.len(),
{
    if attrs.len() == 0 {
        None
    } else if attrs.last().0 == name {
        Some(attrs.last().1)
    } else {
        attr_lookup(attrs.drop_last(), name)
    }
}

/// A required attribute: its value, or the error naming it.
pub open spec fn req_attr(attrs: Seq<(Seq<char>, Seq<char>)>, name: Seq<char>) -> Result<
    Seq<char>,
    DecodingErrorV,
> {
    match attr_lookup(attrs, name) {
        Some(v) => Ok(v),
        None => Err(DecodingErrorV::MissingAttribute(name)),
    }
}

/// A required `M/D/YYYY` date attribute.
pub open spec fn date_attr(attrs: Seq<(Seq<char>, Seq<char>)>, name: Seq<char>) -> Result<
    Date,
    DecodingErrorV,
> {
    match attr_lookup(attrs, name) {
        None => Err(DecodingErrorV::MissingAttribute(name)),
        Some(v) => match mdy_parse(v) {
            Some(d) => Ok(d),
            None => Err(DecodingErrorV::DateParseError(name, v)),
        },
    }
}

/// A required integer attribute.
pub open spec fn i8_attr(attrs: Seq<(Seq<char>, Seq<char>)>, name: Seq<char>) -> Result<
    i8,
    DecodingErrorV,
> {
    match attr_lookup(attrs, name) {
        None => Err(DecodingErrorV::MissingAttribute(name)),
        Some(v) => match parse_i8_spec(v) {
            Some(n) => Ok(n),
            None => Err(DecodingErrorV::IntegerParseError(name, v)),
        },
    }
}

/// A required decimal attribute.
pub open spec fn dec_attr(attrs: Seq<(Seq<char>, Seq<char>)>, name: Seq<char>) -> Result<
    Decimal,
    DecodingErrorV,
> {
    match attr_lookup(attrs, name) {
        None => Err(DecodingErrorV::MissingAttribute(name)),
        Some(v) => match parse_dec_spec(v) {
            Some(d) => Ok(d),
            None => Err(DecodingErrorV::FloatParseError(name, v)),
        },
    }
}

/// A required boolean attribute, `"true"` or `"false"` exactly.
pub open spec fn bool_attr(attrs: Seq<(Seq<char>, Seq<char>)>, name: Seq<char>) -> Result<
    bool,
    DecodingErrorV,
> {
    match attr_lookup(attrs, name) {
        None => Err(DecodingErrorV::MissingAttribute(name)),
        Some(v) => if v == "true"@ {
            Ok(true)
        } else if v == "false"@ {
            Ok(false)
        } else {
            Err(DecodingErrorV::BoolParseError(name, v))
        },
    }
}

/// A required attribute read as an optional decimal: unparseable text is
/// `None` rather than an error, but the attribute itself must be present.
pub open spec fn opt_dec_attr(attrs: Seq<(Seq<char>, Seq<char>)>, name: Seq<char>) -> Result<
    Option<Decimal>,
    DecodingErrorV,
> {
    match attr_lookup(attrs, name) {
        None => Err(DecodingErrorV::MissingAttribute(name)),
        Some(v) => Ok(parse_dec_spec(v)),
    }
}

/// What the date parser returns for given text: a function of the text
/// alone.
pub uninterp spec fn mdy_parse(s: Seq<char>) -> Option<Date>;

/// Relies on chrono's `NaiveDate::parse_from_str` with a non-padded
/// month/day/year format: the result depends on the text alone, and a
/// parsed value is a real calendar date.
#[verifier::external_body]
pub fn parse_date(s: &str) -> (r: Option<Date>)
    ensures
        r == mdy_parse(s@),
        r matches Some(d) ==> 1 <= d.month <= 12 && 1 <= d.day <= 31,
{
    match chrono::NaiveDate::parse_from_str(s, "%-m/%-d/%Y") {
        Ok(d) => Some(Date { year: d.year(), month: d.month(), day: d.day() }),
        Err(_) => None,
    }
}

/// The event at `i` opens an element with this tag.
pub open spec fn starts_with_tag(evs: Seq<EventV>, i: int, tag: Seq<char>) -> bool {
    &&& 0 <= i < evs.len()
    &&& (evs[i] matches EventV::StartElement { name, .. } && name == tag)
}

/// The error that stands for a stream that ended too early: the
/// tokenizer's own failure if one cut the stream short, otherwise an
/// unexpected end.
pub open spec fn end_err(terr: Option<Seq<char>>) -> DecodingErrorV {
    match terr {
        Some(m) => DecodingErrorV::EventError(m),
        None => DecodingErrorV::UnexpectedEnd,
    }
}

/// The exec counterpart of [`end_err`].
pub fn end_error(events: &crate::events::EventList) -> (r: DecodingError)
    ensures
        r.deep_view() == end_err(events.deep_view().error),
{
    match &events.error {
        Some(m) => DecodingError::EventError(m.clone()),
        None => DecodingError::UnexpectedEnd,
    }
}

/// Looks a name up in an element's attribute list; on a repeated name the
/// last value wins.
pub fn get_attr<'a>(attrs: &'a Vec<(String, String)>, name: &str) -> (r: Option<&'a String>)
    ensures
        match r {
            Some(v) => attr_lookup(attrs.deep_view(), name@) == Some(v@),
            None => attr_lookup(attrs.deep_view(), name@) is None,
        },
{
    let ghost d = attrs.deep_view();
    let mut i = attrs.len();
    proof {
        assert(d.subrange(0, i as int) =~= d);
    }
    while i > 0
        invariant
            i <= attrs@.len(),
            d == attrs.deep_view(),
            attr_lookup(d, name@) == attr_lookup(d.subrange(0, i as int), name@),
        decreases i,
    {
        let a = &attrs[i - 1];
        proof {
            let p = d.subrange(0, i as int);
            assert(p.last() == d[i - 1]);
            assert(p.drop_last() =~= d.subrange(0, i - 1));
        }
        if str_eq(a.0.as_str(), name) {
            return Some(&a.1);
        }
        i -= 1;
    }
    proof {
        assert(d.subrange(0, 0) =~= Seq::<(Seq<char>, Seq<char>)>::empty());
    }
    None
}

/// A required attribute, owned.
pub fn get_attr_owned(attrs: &Vec<(String, String)>, name: &str) -> (r: DecoderResult<String>)
    ensures
        deep_res(r) == req_attr(attrs.deep_view(), name@),
{
    match get_attr(attrs, name) {
        Some(v) => Ok(v.clone()),
        None => Err(DecodingError::MissingAttribute(name.to_owned())),
    }
}

/// A required `M/D/YYYY` date attribute.
pub fn get_date_attr(attrs: &Vec<(String, String)>, name: &str) -> (r: DecoderResult<Date>)
    ensures
        deep_res(r) == date_attr(attrs.deep_view(), name@),
{
    match get_attr(attrs, name) {
        None => Err(DecodingError::MissingAttribute(name.to_owned())),
        Some(v) => match parse_date(v.as_str()) {
            Some(d) => Ok(d),
            None => Err(DecodingError::DateParseError(name.to_owned(), v.clone())),
        },
    }
}

/// A required integer attribute.
pub fn get_i8_attr(attrs: &Vec<(String, String)>, name: &str) -> (r: DecoderResult<i8>)
    ensures
        deep_res(r) == i8_attr(attrs.deep_view(), name@),
{
    match get_attr(attrs, name) {
        None => Err(DecodingError::MissingAttribute(name.to_owned())),
        Some(v) => match crate::num::parse_i8(v.as_str()) {
            Some(n) => Ok(n),
            None => Err(DecodingError::IntegerParseError(name.to_owned(), v.clone())),
        },
    }
}

/// A required decimal attribute.
pub fn get_dec_attr(attrs: &Vec<(String, String)>, name: &str) -> (r: DecoderResult<Decimal>)
    ensures
        deep_res(r) == dec_attr(attrs.deep_view(), name@),
{
    match get_attr(attrs, name) {
        None => Err(DecodingError::MissingAttribute(name.to_owned())),
        Some(v) => match crate::num::parse_decimal(v.as_str()) {
            Some(d) => Ok(d),
            None => Err(DecodingError::FloatParseError(name.to_owned(), v.clone())),
        },
    }
}

/// A required boolean attribute.
pub fn get_bool_attr(attrs: &Vec<(String, String)>, name: &str) -> (r: DecoderResult<bool>)
    ensures
        deep_res(r) == bool_attr(attrs.deep_view(), name@),
{
    match get_attr(attrs, name) {
        None => Err(DecodingError::MissingAttribute(name.to_owned())),
        Some(v) => {
            if str_eq(v.as_str(), "true") {
                Ok(true)
            } else if str_eq(v.as_str(), "false") {
                Ok(false)
            } else {
                Err(DecodingError::BoolParseError(name.to_owned(), v.clone()))
            }
        },
    }
}

/// A required attribute read as an optional decimal.
pub fn get_opt_dec_attr(attrs: &Vec<(String, String)>, name: &str) -> (r: DecoderResult<
    Option<Decimal>,
>)
    ensures
        deep_res(r) == opt_dec_attr(attrs.deep_view(), name@),
{
    match get_attr(attrs, name) {
        None => Err(DecodingError::MissingAttribute(name.to_owned())),
        Some(v) => Ok(crate::num::parse_decimal(v.as_str())),
    }
}

} // verus!
