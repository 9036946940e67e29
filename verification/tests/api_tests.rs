//! Unwrapping raw response envelopes.

use svue::api::DecodedSVUEError;
use svue::api::SVUEAPIAction;
use svue::api::SVUERequest;
use svue::api::SVUERequestError;
use svue::gradebook::Gradebook;

#[test]
fn action_names() {
    assert_eq!(SVUEAPIAction::RetrieveGrades(None).as_str(), "Gradebook");
    assert_eq!(SVUEAPIAction::RetrieveStudentInfo.as_str(), "ChildList");
}

#[test]
fn perform_unwraps_the_inner_payload() {
    let raw = r#"<Envelope><Body>&lt;Gradebook&gt;&lt;/Gradebook&gt;</Body></Envelope>"#;
    let resp = SVUERequest::perform(SVUEAPIAction::RetrieveGrades(None), raw).unwrap();
    assert_eq!(resp.xml, "<Gradebook></Gradebook>");
    assert!(Gradebook::from_xml(&resp.xml).is_ok());
}

#[test]
fn perform_surfaces_the_portal_error_record() {
    let raw = r#"<Envelope><Body>&lt;RT_ERROR ERROR_MESSAGE="bad credentials"&gt;trace here&lt;/RT_ERROR&gt;</Body></Envelope>"#;
    let r = SVUERequest::perform(SVUEAPIAction::RetrieveGrades(None), raw);
    assert!(matches!(
        r,
        Err(SVUERequestError::SVUEError(e))
            if e.error_message == "bad credentials" && e.stack_trace == "trace here"
    ));
}

#[test]
fn perform_reports_a_missing_body() {
    let raw = r#"<Envelope><Body></Body></Envelope>"#;
    let r = SVUERequest::perform(SVUEAPIAction::RetrieveGrades(None), raw);
    assert!(matches!(r, Err(SVUERequestError::ResponseBodyNotFound)));
}

#[test]
fn perform_reports_a_missing_payload_tag() {
    let raw = r#"<Envelope><Body>&lt;Unrelated&gt;&lt;/Unrelated&gt;</Body></Envelope>"#;
    let r = SVUERequest::perform(SVUEAPIAction::RetrieveGrades(None), raw);
    assert!(matches!(
        r,
        Err(SVUERequestError::ExpectedTagNotFound(t)) if t == "Gradebook"
    ));
}

#[test]
fn error_record_decode_requires_both_parts() {
    let r = DecodedSVUEError::decode(String::from(
        r#"<RT_ERROR ERROR_MESSAGE="oops"></RT_ERROR>"#,
    ));
    assert!(matches!(
        r,
        Err(svue::decoder::DecodingError::SVUEErrorParsingFailed(_))
    ));
}

#[test]
fn perform_reports_a_malformed_inner_payload() {
    let raw = r#"<Envelope><Body>&lt;Gradebook&lt;</Body></Envelope>"#;
    let r = SVUERequest::perform(SVUEAPIAction::RetrieveGrades(None), raw);
    assert!(matches!(r, Err(SVUERequestError::RawDecodingError(_))));
}
