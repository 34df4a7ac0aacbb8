use substrate_egress::error::{
    answer_failed_call, with_source, ProxyError, Status, DEADLINE_EXCEEDED, UNAVAILABLE,
};

#[test]
fn codes_are_those_of_grpc() {
    assert_eq!(UNAVAILABLE, tonic::Code::Unavailable as i32);
    assert_eq!(DEADLINE_EXCEEDED, tonic::Code::DeadlineExceeded as i32);
}

#[test]
fn two_codes_are_outages() {
    for code in -1..20 {
        let status = Status::new(code, "down");
        assert_eq!(status.outage(), code == 14 || code == 4, "{code}");
    }
}

#[test]
fn the_text_of_a_status_is_what_tonic_displays() {
    for (code, message) in [
        (tonic::Code::PermissionDenied, "not allowed"),
        (tonic::Code::Unavailable, ""),
        (tonic::Code::NotFound, "quote \" and\nline"),
    ] {
        let shown = tonic::Status::new(code, message).to_string();
        assert_eq!(Status::new(code as i32, message).to_text(), shown);
        assert_ne!(shown, message);
    }
}

#[test]
fn the_text_of_a_status_ends_in_its_source() {
    let cause = std::io::Error::new(std::io::ErrorKind::Other, "reset");
    let debug = format!("{cause:?}");
    let theirs = tonic::Status::from_error(Box::new(cause));
    let source = std::error::Error::source(&theirs).map(|source| format!("{source:?}"));
    assert_eq!(source, Some(debug.clone()));
    let ours = Status {
        code: theirs.code() as i32,
        message: theirs.message().to_owned(),
        source,
    };
    assert_eq!(ours.to_text(), theirs.to_string());
    assert!(ours.to_text().ends_with(&format!(", source: {debug}")));
}

#[test]
fn a_source_is_added_to_what_is_shown() {
    assert_eq!(with_source("shown".to_owned(), &None), "shown");
    assert_eq!(
        with_source("shown".to_owned(), &Some("Reset".to_owned())),
        "shown, source: Reset"
    );
}

#[test]
fn failed_calls_are_answered_by_availability() {
    let error = answer_failed_call(true, "text", "gone: ", "refused: ");
    assert!(matches!(&error, ProxyError::SubstrateEgressUnavailable(m) if m == "gone: text"));
    assert_eq!(error.http_status(), 503);
    let error = answer_failed_call(false, "text", "gone: ", "refused: ");
    assert!(matches!(&error, ProxyError::SubstrateEgressDenied(m) if m == "refused: text"));
    assert_eq!(error.http_status(), 403);
    assert_eq!(error.message(), "refused: text");
}
