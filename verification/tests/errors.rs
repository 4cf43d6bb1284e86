use pdf_inspector_api::error::{ApiError, PdfFailure};

fn reply(e: ApiError) -> (u16, String, String) {
    let (status, body) = e.into_response_parts();
    (status, body.error, body.message)
}

#[test]
fn missing_file_reply() {
    assert_eq!(
        reply(ApiError::MissingFile),
        (
            400,
            "missing_file".to_string(),
            "No 'file' field found in multipart form. Expected a PDF upload.".to_string()
        )
    );
}

#[test]
fn empty_upload_reply() {
    assert_eq!(
        reply(ApiError::EmptyUpload),
        (400, "empty_upload".to_string(), "The uploaded file is empty (0 bytes).".to_string())
    );
}

#[test]
fn not_a_pdf_reply() {
    assert_eq!(
        reply(ApiError::NotAPdf("bad header".to_string())),
        (
            400,
            "not_a_pdf".to_string(),
            "The uploaded file is not a valid PDF: bad header".to_string()
        )
    );
}

#[test]
fn invalid_structure_reply() {
    assert_eq!(
        reply(ApiError::InvalidStructure),
        (
            422,
            "invalid_structure".to_string(),
            "The PDF structure could not be parsed (corrupt or unsupported).".to_string()
        )
    );
}

#[test]
fn parse_error_reply() {
    assert_eq!(
        reply(ApiError::Parse("xref broken".to_string())),
        (422, "parse_error".to_string(), "xref broken".to_string())
    );
}

#[test]
fn encrypted_reply() {
    assert_eq!(
        reply(ApiError::Encrypted),
        (
            422,
            "encrypted".to_string(),
            "PDF is encrypted. Supply the password via the `password` query parameter.".to_string()
        )
    );
}

#[test]
fn server_busy_reply() {
    assert_eq!(
        reply(ApiError::ServerBusy),
        (
            503,
            "server_busy".to_string(),
            "Server is at capacity. Retry later or raise MAX_CONCURRENT.".to_string()
        )
    );
}

#[test]
fn internal_error_reply() {
    assert_eq!(
        reply(ApiError::Internal("oops".to_string())),
        (500, "internal_error".to_string(), "oops".to_string())
    );
}

#[test]
fn engine_io_failure_becomes_parse_error() {
    match ApiError::from_pdf_error(PdfFailure::Io("disk gone".to_string())) {
        ApiError::Parse(msg) => assert_eq!(msg, "IO error: disk gone"),
        other => panic!("unexpected {:?}", other),
    }
}

#[test]
fn engine_failures_map_one_to_one() {
    match ApiError::from_pdf_error(PdfFailure::NotAPdf("no %PDF".to_string())) {
        ApiError::NotAPdf(msg) => assert_eq!(msg, "no %PDF"),
        other => panic!("unexpected {:?}", other),
    }
    assert!(matches!(
        ApiError::from_pdf_error(PdfFailure::InvalidStructure),
        ApiError::InvalidStructure
    ));
    assert!(matches!(ApiError::from_pdf_error(PdfFailure::Encrypted), ApiError::Encrypted));
    match ApiError::from_pdf_error(PdfFailure::Parse("bad object".to_string())) {
        ApiError::Parse(msg) => assert_eq!(msg, "bad object"),
        other => panic!("unexpected {:?}", other),
    }
}

#[test]
fn engine_failures_are_answered_as_client_errors() {
    for f in [
        PdfFailure::Io("x".to_string()),
        PdfFailure::NotAPdf("x".to_string()),
        PdfFailure::InvalidStructure,
        PdfFailure::Encrypted,
        PdfFailure::Parse("x".to_string()),
    ] {
        let (status, _) = ApiError::from_pdf_error(f).into_response_parts();
        assert!(status == 400 || status == 422);
    }
}
