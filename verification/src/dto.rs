//! The shapes of the JSON replies and of the upload, as plain data, and the
//! wire names of the document kinds.
use vstd::prelude::*;

verus! {

/// The kind of document the classifier found.
#[derive(Debug, Clone, Copy, PartialEq, Eq, Structural)]
pub enum PdfType {
    TextBased,
    Scanned,
    ImageBased,
    Mixed,
}

/// The wire name of a document kind: lowercase snake_case, as the CLI and the
/// language bindings write it.
pub open spec fn pdf_type_name(t: PdfType) -> Seq<char> {
    match t {
        PdfType::TextBased => "text_based"@,
        PdfType::Scanned => "scanned"@,
        PdfType::ImageBased => "image_based"@,
        PdfType::Mixed => "mixed"@,
    }
}

/// The wire name of `t` ("text_based", "scanned", "image_based" or "mixed").
pub fn pdf_type_str(t: PdfType) -> (name: &'static str)
    ensures
        name@ == pdf_type_name(t),
{
    match t {
        PdfType::TextBased => "text_based",
        PdfType::Scanned => "scanned",
        PdfType::ImageBased => "image_based",
        PdfType::Mixed => "mixed",
    }
}

/// One row of `pages_needing_ocr` context: which page and why OCR is advised.
#[derive(Debug, Clone)]
pub struct PageOcrReasonsDto {
    /// 1-indexed page number.
    pub page: u32,
    /// Machine-readable reason identifiers (e.g. "scanned", "no_text").
    pub reasons: Vec<String>,
}

/// Layout complexity summary.
#[derive(Debug, Clone)]
pub struct LayoutComplexityDto {
    pub is_complex: bool,
    /// 1-indexed pages containing detected tables.
    pub pages_with_tables: Vec<u32>,
    /// 1-indexed pages with multi-column text.
    pub pages_with_columns: Vec<u32>,
}

/// JSON error body returned on non-2xx responses.
#[derive(Debug, Clone)]
pub struct ErrorResponse {
    /// Machine-readable error code, e.g. `missing_file`, `encrypted`.
    pub error: String,
    /// Human-readable explanation of the failure.
    pub message: String,
}

/// The multipart upload: the PDF sent in the form field `file`.
#[derive(Debug, Clone)]
pub struct PdfUploadBody {
    pub file: Vec<u8>,
}

} // verus!
