use pdf_inspector_api::dto::{pdf_type_str, PdfType};
use pdf_inspector_api::error::{ApiError, PdfFailure};
use pdf_inspector_api::options::{build_options, ConvertQuery, DetectQuery, ProcessMode};
use pdf_inspector_api::processing::{admit_request, finish_task, SlotWait, TaskOutcome};
use pdf_inspector_api::upload::{is_pdf_field, read_pdf_field_result, UploadEnd};

#[test]
fn pdf_type_wire_names() {
    assert_eq!(pdf_type_str(PdfType::TextBased), "text_based");
    assert_eq!(pdf_type_str(PdfType::Scanned), "scanned");
    assert_eq!(pdf_type_str(PdfType::ImageBased), "image_based");
    assert_eq!(pdf_type_str(PdfType::Mixed), "mixed");
}

#[test]
fn options_from_full_query() {
    let o = build_options(
        ProcessMode::Full,
        &Some("1,3,5-6".to_string()),
        &Some("secret123".to_string()),
        Some(true),
    );
    assert_eq!(o.mode, ProcessMode::Full);
    assert_eq!(o.pages, Some(vec![1, 3, 5, 6]));
    assert_eq!(o.password, Some("secret123".to_string()));
    assert!(o.compact);
}

#[test]
fn options_ignore_empty_values() {
    let o = build_options(
        ProcessMode::Full,
        &Some("x,9-1".to_string()),
        &Some(String::new()),
        Some(false),
    );
    assert_eq!(o.pages, None);
    assert_eq!(o.password, None);
    assert!(!o.compact);
    let o = build_options(ProcessMode::DetectOnly, &None, &None, None);
    assert_eq!(o.mode, ProcessMode::DetectOnly);
    assert_eq!(o.pages, None);
    assert_eq!(o.password, None);
    assert!(!o.compact);
}

#[test]
fn convert_query_options() {
    let q = ConvertQuery {
        select_pages: Some("2, 1".to_string()),
        password: None,
        compact: None,
    };
    let o = q.to_options();
    assert_eq!(o.mode, ProcessMode::Full);
    assert_eq!(o.pages, Some(vec![1, 2]));
    assert!(!o.compact);
}

#[test]
fn detect_query_options() {
    let q = DetectQuery { password: Some("pw".to_string()) };
    let o = q.to_options();
    assert_eq!(o.mode, ProcessMode::DetectOnly);
    assert_eq!(o.pages, None);
    assert_eq!(o.password, Some("pw".to_string()));
    assert!(!o.compact);
}

#[test]
fn upload_field_selection() {
    assert!(is_pdf_field(&Some("file".to_string()), false));
    assert!(is_pdf_field(&Some("doc".to_string()), true));
    assert!(is_pdf_field(&None, true));
    assert!(!is_pdf_field(&Some("files".to_string()), false));
    assert!(!is_pdf_field(&Some("File".to_string()), false));
    assert!(!is_pdf_field(&None, false));
}

#[test]
fn upload_contents() {
    assert_eq!(
        read_pdf_field_result(UploadEnd::FieldBytes(b"%PDF-1.7".to_vec())).unwrap(),
        b"%PDF-1.7".to_vec()
    );
    assert!(matches!(
        read_pdf_field_result(UploadEnd::FieldBytes(Vec::new())),
        Err(ApiError::EmptyUpload)
    ));
    assert!(matches!(
        read_pdf_field_result(UploadEnd::NoMoreFields),
        Err(ApiError::MissingFile)
    ));
}

#[test]
fn upload_read_errors() {
    match read_pdf_field_result(UploadEnd::FieldListError("eof".to_string())) {
        Err(ApiError::Internal(msg)) => assert_eq!(msg, "multipart read error: eof"),
        other => panic!("unexpected {:?}", other),
    }
    match read_pdf_field_result(UploadEnd::FieldReadError("reset".to_string())) {
        Err(ApiError::Internal(msg)) => assert_eq!(msg, "field read error: reset"),
        other => panic!("unexpected {:?}", other),
    }
}

#[test]
fn slot_admission() {
    assert!(admit_request(SlotWait::Acquired).is_ok());
    assert!(matches!(admit_request(SlotWait::Closed), Err(ApiError::ServerBusy)));
    assert!(matches!(admit_request(SlotWait::TimedOut), Err(ApiError::ServerBusy)));
}

#[test]
fn task_outcomes() {
    assert_eq!(finish_task(TaskOutcome::Finished(7u32)).unwrap(), 7);
    assert!(matches!(
        finish_task::<u32>(TaskOutcome::Failed(PdfFailure::Encrypted)),
        Err(ApiError::Encrypted)
    ));
    match finish_task::<u32>(TaskOutcome::Panicked("task 3 panicked".to_string())) {
        Err(ApiError::Internal(msg)) => assert_eq!(msg, "processing failed: task 3 panicked"),
        other => panic!("unexpected {:?}", other),
    }
}
