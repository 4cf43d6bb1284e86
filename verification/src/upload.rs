//! The decisions taken while the multipart form of a request is read: which
//! field holds the PDF, and what reading the form comes to.
use vstd::prelude::*;
use crate::error::{join_message, ApiError};

verus! {

/// Which field is read as the PDF: any field that carries a filename, whatever
/// its name; any field named exactly `file`, with or without a filename (so the
/// field that `curl -F file=@doc.pdf` sends, which has both, is read); and no other.
pub proof fn lemma_pdf_field_choice(name: Option<String>, has_filename: bool, chosen: bool)
    requires
        call_ensures(is_pdf_field, (&name, has_filename), chosen),
    ensures
        has_filename ==> chosen,
        (name matches Some(n) && n@ == "file"@) ==> chosen,
        !has_filename && !(name matches Some(n) && n@ == "file"@) ==> !chosen,
{
}

/// Adding a filename to a field never makes it lose its place as the PDF field.
pub proof fn lemma_pdf_field_choice_monotone(
    name: Option<String>,
    without_filename: bool,
    with_filename: bool,
)
    requires
        call_ensures(is_pdf_field, (&name, false), without_filename),
        call_ensures(is_pdf_field, (&name, true), with_filename),
    ensures
        without_filename ==> with_filename,
        with_filename,
{
}

/// How reading the multipart form ended.
#[derive(Debug, Clone)]
pub enum UploadEnd {
    /// The complete contents of the field that holds the PDF.
    FieldBytes(Vec<u8>),
    /// Reading the next field failed; the text is the error's message.
    FieldListError(String),
    /// Reading the chosen field's contents failed; the text is the error's message.
    FieldReadError(String),
    /// The form has no field that holds the PDF.
    NoMoreFields,
}

/// Whether a field with this name, with or without a filename, holds the PDF:
/// one named `file`, or any that carries a filename.
pub open spec fn is_pdf_field_spec(name: Option<String>, has_filename: bool) -> bool {
    has_filename || (name matches Some(n) && n@ == "file"@)
}

/// Whether a field with this name, with or without a filename, holds the PDF.
/// The first such field is the one read.
pub fn is_pdf_field(name: &Option<String>, has_filename: bool) -> (r: bool)
    ensures
        r == is_pdf_field_spec(*name, has_filename),
        has_filename ==> r,
        (name matches Some(n) && n@ == "file"@) ==> r,
        r ==> has_filename || (name matches Some(n) && n@ == "file"@),
{
    let named_file = match name {
        Some(n) => {
            let file = String::from_str("file");
            *n == file
        },
        None => false,
    };
    has_filename || named_file
}

/// What reading the upload comes to: the bytes of the chosen field, unless they
/// are empty; a form without such a field is refused; read failures are
/// internal errors that say what failed.
pub fn read_pdf_field_result(end: UploadEnd) -> (r: Result<Vec<u8>, ApiError>)
    ensures
        match end {
            UploadEnd::FieldBytes(data) => if data@.len() == 0 {
                r == Err::<Vec<u8>, ApiError>(ApiError::EmptyUpload)
            } else {
                r == Ok::<Vec<u8>, ApiError>(data)
            },
            UploadEnd::FieldListError(detail) => r matches Err(ApiError::Internal(msg)) && msg@
                == "multipart read error: "@ + detail@,
            UploadEnd::FieldReadError(detail) => r matches Err(ApiError::Internal(msg)) && msg@
                == "field read error: "@ + detail@,
            UploadEnd::NoMoreFields => r == Err::<Vec<u8>, ApiError>(ApiError::MissingFile),
        },
{
    match end {
        UploadEnd::FieldBytes(data) => {
            if data.len() == 0 {
                Err(ApiError::EmptyUpload)
            } else {
                Ok(data)
            }
        },
        UploadEnd::FieldListError(detail) => Err(
            ApiError::Internal(join_message("multipart read error: ", detail.as_str())),
        ),
        UploadEnd::FieldReadError(detail) => Err(
            ApiError::Internal(join_message("field read error: ", detail.as_str())),
        ),
        UploadEnd::NoMoreFields => Err(ApiError::MissingFile),
    }
}

} // verus!
