//! The portal's response envelope.
//!
//! A raw service response wraps the useful payload as character data inside
//! an outer document. Unwrapping finds that inner text, checks that it
//! carries the expected payload tag, and otherwise surfaces the portal's
//! own error record (message and stack trace) as a typed error.

use vstd::prelude::*;

use crate::decoder::DecoderResult;
use crate::decoder::DecodingError;
use crate::decoder::DecodingErrorV;
use crate::decoder::deep_res;
use crate::decoder::get_attr_owned;
use crate::decoder::req_attr;
use crate::events::Event;
use crate::events::EventList;
use crate::events::EventV;
use crate::events::tokenize;
use crate::events::tokens_of;
use crate::text::str_eq;

verus! {

/// A request the portal understands.
#[derive(Clone, Copy, Debug)]
pub enum SVUEAPIAction {
    /// Fetch the gradebook, optionally for one report period.
    RetrieveGrades(Option<i8>),
    /// Fetch the student roster.
    RetrieveStudentInfo,
}

impl DeepView for SVUEAPIAction {
    type V = SVUEAPIAction;

    open spec fn deep_view(&self) -> SVUEAPIAction {
        *self
    }
}

/// The payload tag each action expects in a response.
pub open spec fn action_tag(action: SVUEAPIAction) -> Seq<char> {
    match action {
        SVUEAPIAction::RetrieveGrades(_) => "Gradebook"@,
        SVUEAPIAction::RetrieveStudentInfo => "ChildList"@,
    }
}

impl SVUEAPIAction {
    /// The method name and payload tag of this action.
    pub fn as_str(&self) -> (r: &'static str)
        ensures
            r@ == action_tag(*self),
    {
        match self {
            SVUEAPIAction::RetrieveGrades(_) => "Gradebook",
            SVUEAPIAction::RetrieveStudentInfo => "ChildList",
        }
    }
}

/// One request to the portal: the action whose payload the caller expects.
/// The transport performs the network exchange; [`SVUERequest::perform`]
/// unwraps what came back.
#[derive(Debug)]
pub struct SVUERequest {
    pub action: SVUEAPIAction,
}

/// The portal's own error record, decoded from an error response.
#[derive(Debug)]
pub struct DecodedSVUEError {
    pub error_message: String,
    pub stack_trace: String,
}

pub struct DecodedSVUEErrorV {
    pub error_message: Seq<char>,
    pub stack_trace: Seq<char>,
}

impl DeepView for DecodedSVUEError {
    type V = DecodedSVUEErrorV;

    open spec fn deep_view(&self) -> DecodedSVUEErrorV {
        DecodedSVUEErrorV {
            error_message: self.error_message@,
            stack_trace: self.stack_trace@,
        }
    }
}

/// Why a response could not be unwrapped into the expected payload.
#[derive(Debug)]
pub enum SVUERequestError {
    /// The payload was found but did not decode.
    DecodingError(DecodingError),
    /// Neither the expected tag nor an error record appeared.
    ExpectedTagNotFound(String),
    /// The tokenizer failed on the raw response or the inner payload.
    RawDecodingError(String),
    /// The outer response held no character data at all.
    ResponseBodyNotFound,
    /// The portal reported a service-level error.
    SVUEError(DecodedSVUEError),
    /// The portal reported an error whose record itself did not decode.
    SVUEErrorParsingFailed(DecodingError),
}

pub enum SVUERequestErrorV {
    DecodingError(DecodingErrorV),
    ExpectedTagNotFound(Seq<char>),
    RawDecodingError(Seq<char>),
    ResponseBodyNotFound,
    SVUEError(DecodedSVUEErrorV),
    SVUEErrorParsingFailed(DecodingErrorV),
}

impl DeepView for SVUERequestError {
    type V = SVUERequestErrorV;

    open spec fn deep_view(&self) -> SVUERequestErrorV {
        match self {
            SVUERequestError::DecodingError(e) => SVUERequestErrorV::DecodingError(e.deep_view()),
            SVUERequestError::ExpectedTagNotFound(t) => SVUERequestErrorV::ExpectedTagNotFound(t@),
            SVUERequestError::RawDecodingError(m) => SVUERequestErrorV::RawDecodingError(m@),
            SVUERequestError::ResponseBodyNotFound => SVUERequestErrorV::ResponseBodyNotFound,
            SVUERequestError::SVUEError(d) => SVUERequestErrorV::SVUEError(d.deep_view()),
            SVUERequestError::SVUEErrorParsingFailed(e) => SVUERequestErrorV::SVUEErrorParsingFailed(
                e.deep_view(),
            ),
        }
    }
}

/// The unwrapped inner payload of one response.
#[derive(Debug)]
pub struct SVUEResponse {
    pub req_action: SVUEAPIAction,
    pub xml: String,
}

pub struct SVUEResponseV {
    pub req_action: SVUEAPIAction,
    pub xml: Seq<char>,
}

impl DeepView for SVUEResponse {
    type V = SVUEResponseV;

    open spec fn deep_view(&self) -> SVUEResponseV {
        SVUEResponseV { req_action: self.req_action, xml: self.xml@ }
    }
}

/// The first character-data event of the outer response: the inner
/// payload's text.
pub open spec fn find_characters(evs: Seq<EventV>, terr: Option<Seq<char>>, i: int) -> Result<
    Seq<char>,
    SVUERequestErrorV,
>
    decreases evs.len() - i,
{
    if i < 0 || i >= evs.len() {
        match terr {
            Some(m) => Err(SVUERequestErrorV::RawDecodingError(m)),
            None => Err(SVUERequestErrorV::ResponseBodyNotFound),
        }
    } else {
        match evs[i] {
            EventV::Characters(cs) => Ok(cs),
            _ => find_characters(evs, terr, i + 1),
        }
    }
}

/// What scanning the inner payload for its top-level tag can find.
pub enum ScanOutcome {
    /// The expected payload tag appeared.
    Found,
    /// The portal's error record appeared instead.
    ErrorTag,
    /// The tokenizer failed before either tag appeared.
    TokenFail(Seq<char>),
    /// The text ended without either tag.
    NotFound,
}

/// Scans the inner payload for the expected tag or the error record.
pub open spec fn scan_expected(
    evs: Seq<EventV>,
    terr: Option<Seq<char>>,
    i: int,
    expect: Seq<char>,
) -> ScanOutcome
    decreases evs.len() - i,
{
    if i < 0 || i >= evs.len() {
        match terr {
            Some(m) => ScanOutcome::TokenFail(m),
            None => ScanOutcome::NotFound,
        }
    } else {
        match evs[i] {
            EventV::StartElement { name, attributes } => if name == expect {
                ScanOutcome::Found
            } else if name == "RT_ERROR"@ {
                ScanOutcome::ErrorTag
            } else {
                scan_expected(evs, terr, i + 1, expect)
            },
            _ => scan_expected(evs, terr, i + 1, expect),
        }
    }
}

/// Collects the portal's error message and stack trace from an error
/// response, up to the error record's closing tag.
pub open spec fn svue_error_scan(
    evs: Seq<EventV>,
    terr: Option<Seq<char>>,
    i: int,
    err: Option<Seq<char>>,
    st: Option<Seq<char>>,
) -> Result<(Option<Seq<char>>, Option<Seq<char>>), DecodingErrorV>
    decreases evs.len() - i,
{
    if i < 0 || i >= evs.len() {
        match terr {
            Some(m) => Err(DecodingErrorV::EventError(m)),
            None => Ok((err, st)),
        }
    } else {
        match evs[i] {
            EventV::StartElement { name, attributes } => if name == "RT_ERROR"@ {
                match req_attr(attributes, "ERROR_MESSAGE"@) {
                    Ok(v) => svue_error_scan(evs, terr, i + 1, Some(v), st),
                    Err(e) => Err(e),
                }
            } else {
                svue_error_scan(evs, terr, i + 1, err, st)
            },
            EventV::EndElement { name } => if name == "RT_ERROR"@ {
                Ok((err, st))
            } else {
                svue_error_scan(evs, terr, i + 1, err, st)
            },
            EventV::Characters(cs) => svue_error_scan(evs, terr, i + 1, err, Some(cs)),
            EventV::Whitespace(_) => svue_error_scan(evs, terr, i + 1, err, st),
            EventV::StartDocument => svue_error_scan(evs, terr, i + 1, err, st),
            EventV::Other => Err(DecodingErrorV::UnexpectedEvent(evs[i])),
        }
    }
}

/// What decoding the portal's error record from text yields: the record,
/// or the error naming the text it was looked for in.
pub open spec fn svue_error_of(s: Seq<char>) -> Result<DecodedSVUEErrorV, DecodingErrorV> {
    let tl = tokens_of(s);
    match svue_error_scan(tl.items, tl.error, 0, None, None) {
        Err(e) => Err(e),
        Ok(p) => match p {
            (Some(e), Some(st)) => Ok(DecodedSVUEErrorV { error_message: e, stack_trace: st }),
            _ => Err(DecodingErrorV::SVUEErrorParsingFailed(s)),
        },
    }
}

/// What unwrapping a raw response yields: the inner payload text whose
/// top-level tag is `expect`, or the typed reason there is none.
pub open spec fn response_xml_spec(raw: Seq<char>, expect: Seq<char>) -> Result<
    Seq<char>,
    SVUERequestErrorV,
> {
    let otl = tokens_of(raw);
    match find_characters(otl.items, otl.error, 0) {
        Err(e) => Err(e),
        Ok(xml) => {
            let itl = tokens_of(xml);
            match scan_expected(itl.items, itl.error, 0, expect) {
                ScanOutcome::Found => Ok(xml),
                ScanOutcome::TokenFail(m) => Err(SVUERequestErrorV::RawDecodingError(m)),
                ScanOutcome::ErrorTag => match svue_error_of(xml) {
                    Ok(de) => Err(SVUERequestErrorV::SVUEError(de)),
                    Err(e) => Err(SVUERequestErrorV::SVUEErrorParsingFailed(e)),
                },
                ScanOutcome::NotFound => Err(SVUERequestErrorV::ExpectedTagNotFound(expect)),
            }
        },
    }
}

/// What performing an action on a raw response body yields.
pub open spec fn perform_spec(action: SVUEAPIAction, raw: Seq<char>) -> Result<
    SVUEResponseV,
    SVUERequestErrorV,
> {
    match response_xml_spec(raw, action_tag(action)) {
        Ok(xml) => Ok(SVUEResponseV { req_action: action, xml }),
        Err(e) => Err(e),
    }
}

/// The first character-data event of a tokenized response.
#[verifier::loop_isolation(false)]
fn find_characters_x(events: &EventList) -> (r: Result<String, SVUERequestError>)
    ensures
        deep_res(r) == find_characters(events.deep_view().items, events.deep_view().error, 0),
{
    let ghost evs = events.deep_view().items;
    let ghost terr = events.deep_view().error;
    let n = events.items.len();
    let mut i: usize = 0;
    while i < n
        invariant
            i <= n,
            find_characters(evs, terr, 0) == find_characters(evs, terr, i as int),
        decreases n - i,
    {
        let ev = &events.items[i];
        match ev {
            Event::Characters(cs) => {
                return Ok(cs.clone());
            },
            _ => {},
        }
        i += 1;
    }
    match &events.error {
        Some(m) => Err(SVUERequestError::RawDecodingError(m.clone())),
        None => Err(SVUERequestError::ResponseBodyNotFound),
    }
}

/// The exec counterpart of a [`ScanOutcome`].
enum TagScan {
    Found,
    ErrorRecord,
    TokenFail(String),
    NotFound,
}

/// Scans a tokenized payload for the expected tag or the error record.
#[verifier::loop_isolation(false)]
fn scan_expected_x(events: &EventList, expect: &str) -> (r: TagScan)
    ensures
        ({
            let s = scan_expected(
                events.deep_view().items,
                events.deep_view().error,
                0,
                expect@,
            );
            match r {
                TagScan::Found => s == ScanOutcome::Found,
                TagScan::ErrorRecord => s == ScanOutcome::ErrorTag,
                TagScan::TokenFail(m) => s == ScanOutcome::TokenFail(m@),
                TagScan::NotFound => s == ScanOutcome::NotFound,
            }
        }),
{
    let ghost evs = events.deep_view().items;
    let ghost terr = events.deep_view().error;
    let n = events.items.len();
    let mut i: usize = 0;
    while i < n
        invariant
            i <= n,
            scan_expected(evs, terr, 0, expect@) == scan_expected(evs, terr, i as int, expect@),
        decreases n - i,
    {
        let ev = &events.items[i];
        match ev {
            Event::StartElement { name, .. } => {
                if str_eq(name.as_str(), expect) {
                    return TagScan::Found;
                }
                if str_eq(name.as_str(), "RT_ERROR") {
                    return TagScan::ErrorRecord;
                }
            },
            _ => {},
        }
        i += 1;
    }
    match &events.error {
        Some(m) => TagScan::TokenFail(m.clone()),
        None => TagScan::NotFound,
    }
}

impl DecodedSVUEError {
    /// Decodes the portal's error record out of an error response's text.
    #[verifier::loop_isolation(false)]
    pub fn decode(xml: String) -> (r: DecoderResult<DecodedSVUEError>)
        ensures
            deep_res(r) == svue_error_of(xml@),
    {
        let events = tokenize(xml.as_str());
        let ghost evs = events.deep_view().items;
        let ghost terr = events.deep_view().error;
        let n = events.items.len();
        let mut err: Option<String> = None;
        let mut st: Option<String> = None;
        let mut i: usize = 0;
        let mut closed = false;
        while i < n && !closed
            invariant
                i <= n,
                !closed ==> svue_error_scan(evs, terr, 0, None, None) == svue_error_scan(
                    evs,
                    terr,
                    i as int,
                    err.deep_view(),
                    st.deep_view(),
                ),
                closed ==> svue_error_scan(evs, terr, 0, None, None) == Ok::<
                    _,
                    DecodingErrorV,
                >((err.deep_view(), st.deep_view())),
            decreases n - i, (if closed { 0int } else { 1int }),
        {
            let ev = &events.items[i];
            match ev {
                Event::StartElement { name, attributes } => {
                    if str_eq(name.as_str(), "RT_ERROR") {
                        match get_attr_owned(attributes, "ERROR_MESSAGE") {
                            Ok(v) => {
                                err = Some(v);
                            },
                            Err(e) => {
                                return Err(e);
                            },
                        }
                    }
                },
                Event::EndElement { name } => {
                    if str_eq(name.as_str(), "RT_ERROR") {
                        closed = true;
                    }
                },
                Event::Characters(cs) => {
                    st = Some(cs.clone());
                },
                Event::Whitespace(_) => {},
                Event::StartDocument => {},
                Event::Other => {
                    return Err(DecodingError::UnexpectedEvent(ev.clone()));
                },
            }
            if !closed {
                i += 1;
            }
        }
        if !closed {
            match &events.error {
                Some(m) => {
                    return Err(DecodingError::EventError(m.clone()));
                },
                None => {},
            }
        }
        match (err, st) {
            (Some(e), Some(s)) => Ok(DecodedSVUEError { error_message: e, stack_trace: s }),
            _ => Err(DecodingError::SVUEErrorParsingFailed(xml)),
        }
    }
}

impl SVUERequest {
    /// Unwraps a raw response body into the payload the action expects, or
    /// the typed reason there is none. The transport fetches `raw`; this
    /// does everything after the bytes have arrived.
    pub fn perform(action: SVUEAPIAction, raw: &str) -> (r: Result<SVUEResponse, SVUERequestError>)
        ensures
            deep_res(r) == perform_spec(action, raw@),
    {
        let expect = action.as_str();
        let outer = tokenize(raw);
        let xml = match find_characters_x(&outer) {
            Ok(xml) => xml,
            Err(e) => {
                return Err(e);
            },
        };
        let inner = tokenize(xml.as_str());
        match scan_expected_x(&inner, expect) {
            TagScan::Found => Ok(SVUEResponse { req_action: action, xml }),
            TagScan::TokenFail(m) => Err(SVUERequestError::RawDecodingError(m)),
            TagScan::ErrorRecord => match DecodedSVUEError::decode(xml) {
                Ok(de) => Err(SVUERequestError::SVUEError(de)),
                Err(e) => Err(SVUERequestError::SVUEErrorParsingFailed(e)),
            },
            TagScan::NotFound => Err(SVUERequestError::ExpectedTagNotFound(expect.to_owned())),
        }
    }
}

} // verus!
