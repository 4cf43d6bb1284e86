//! Errors of the API and the HTTP reply that each one gets.
use vstd::prelude::*;
use crate::dto::ErrorResponse;

verus! {

/// Why the PDF engine refused a document.
#[derive(Debug, Clone)]
pub enum PdfFailure {
    /// Reading the document failed; the text is the I/O error's message.
    Io(String),
    /// The bytes are not a PDF (bad magic / header).
    NotAPdf(String),
    /// The PDF structure could not be parsed.
    InvalidStructure,
    /// The PDF needs a password that was not given or was wrong.
    Encrypted,
    /// A parsing failure with a message from the engine.
    Parse(String),
}

/// Errors produced by the API handlers.
#[derive(Debug, Clone)]
pub enum ApiError {
    /// No `file` part in the multipart form, or it had no filename.
    MissingFile,
    /// The upload exists but is empty (0 bytes).
    EmptyUpload,
    /// The supplied bytes are not a PDF (bad magic / header).
    NotAPdf(String),
    /// A valid PDF whose structure could not be parsed.
    InvalidStructure,
    /// A parse failure with a free-form message from the library.
    Parse(String),
    /// PDF requires a password; none was supplied or it was wrong.
    Encrypted,
    /// All processing slots are busy and the queue timeout elapsed.
    ServerBusy,
    /// A panic or internal failure in the processing thread.
    Internal(String),
}

/// Whether `a` is the API error that the engine failure `e` becomes.
pub open spec fn converts_failure(e: PdfFailure, a: ApiError) -> bool {
    match e {
        PdfFailure::Io(m) => a matches ApiError::Parse(msg) && msg@ == "IO error: "@ + m@,
        PdfFailure::NotAPdf(m) => a == ApiError::NotAPdf(m),
        PdfFailure::InvalidStructure => a == ApiError::InvalidStructure,
        PdfFailure::Encrypted => a == ApiError::Encrypted,
        PdfFailure::Parse(m) => a == ApiError::Parse(m),
    }
}

/// `prefix` followed by `detail`, as a new string.
pub fn join_message(prefix: &str, detail: &str) -> (s: String)
    ensures
        s@ == prefix@ + detail@,
{
    let mut s = String::from_str(prefix);
    s.append(detail);
    s
}

impl ApiError {
    /// The API error that an engine failure becomes.
    pub fn from_pdf_error(e: PdfFailure) -> (a: ApiError)
        ensures
            converts_failure(e, a),
    {
        match e {
            PdfFailure::Io(m) => ApiError::Parse(join_message("IO error: ", m.as_str())),
            PdfFailure::NotAPdf(m) => ApiError::NotAPdf(m),
            PdfFailure::InvalidStructure => ApiError::InvalidStructure,
            PdfFailure::Encrypted => ApiError::Encrypted,
            PdfFailure::Parse(m) => ApiError::Parse(m),
        }
    }

    /// The HTTP status of the reply to this error.
    pub open spec fn status_spec(self) -> u16 {
        match self {
            ApiError::MissingFile | ApiError::EmptyUpload | ApiError::NotAPdf(_) => 400,
            ApiError::InvalidStructure | ApiError::Parse(_) | ApiError::Encrypted => 422,
            ApiError::ServerBusy => 503,
            ApiError::Internal(_) => 500,
        }
    }

    /// The machine-readable code in the reply to this error.
    pub open spec fn code_spec(self) -> Seq<char> {
        match self {
            ApiError::MissingFile => "missing_file"@,
            ApiError::EmptyUpload => "empty_upload"@,
            ApiError::NotAPdf(_) => "not_a_pdf"@,
            ApiError::InvalidStructure => "invalid_structure"@,
            ApiError::Parse(_) => "parse_error"@,
            ApiError::Encrypted => "encrypted"@,
            ApiError::ServerBusy => "server_busy"@,
            ApiError::Internal(_) => "internal_error"@,
        }
    }

    /// The human-readable message in the reply to this error.
    pub open spec fn message_spec(self) -> Seq<char> {
        match self {
            ApiError::MissingFile => "No 'file' field found in multipart form. Expected a PDF upload."@,
            ApiError::EmptyUpload => "The uploaded file is empty (0 bytes)."@,
            ApiError::NotAPdf(msg) => "The uploaded file is not a valid PDF: "@ + msg@,
            ApiError::InvalidStructure => "The PDF structure could not be parsed (corrupt or unsupported)."@,
            ApiError::Parse(msg) => msg@,
            ApiError::Encrypted => "PDF is encrypted. Supply the password via the `password` query parameter."@,
            ApiError::ServerBusy => "Server is at capacity. Retry later or raise MAX_CONCURRENT."@,
            ApiError::Internal(msg) => msg@,
        }
    }

    /// The HTTP status and the JSON body `{"error": code, "message": ...}` that
    /// answer this error.
    pub fn into_response_parts(self) -> (reply: (u16, ErrorResponse))
        ensures
            reply.0 == self.status_spec(),
            reply.1.error@ == self.code_spec(),
            reply.1.message@ == self.message_spec(),
    {
        let (status, code, message): (u16, &str, String) = match self {
            ApiError::MissingFile => (
                400,
                "missing_file",
                String::from_str("No 'file' field found in multipart form. Expected a PDF upload."),
            ),
            ApiError::EmptyUpload => (
                400,
                "empty_upload",
                String::from_str("The uploaded file is empty (0 bytes)."),
            ),
            ApiError::NotAPdf(msg) => (
                400,
                "not_a_pdf",
                join_message("The uploaded file is not a valid PDF: ", msg.as_str()),
            ),
            ApiError::InvalidStructure => (
                422,
                "invalid_structure",
                String::from_str("The PDF structure could not be parsed (corrupt or unsupported)."),
            ),
            ApiError::Parse(msg) => (422, "parse_error", msg),
            ApiError::Encrypted => (
                422,
                "encrypted",
                String::from_str(
                    "PDF is encrypted. Supply the password via the `password` query parameter.",
                ),
            ),
            ApiError::ServerBusy => (
                503,
                "server_busy",
                String::from_str("Server is at capacity. Retry later or raise MAX_CONCURRENT."),
            ),
            ApiError::Internal(msg) => (500, "internal_error", msg),
        };
        (status, ErrorResponse { error: String::from_str(code), message })
    }
}

/// Every error is answered with a 4xx or 5xx status, and with a 5xx exactly when
/// the fault lies with the server (busy, or failed internally).
pub proof fn lemma_error_status_class(a: ApiError)
    ensures
        400 <= a.status_spec() < 600,
        a.status_spec() >= 500 <==> (a is ServerBusy || a is Internal),
{
}

/// A document that the engine refuses is the client's fault: it is answered
/// with 400 when it is not a PDF and with 422 otherwise.
pub proof fn lemma_engine_failure_status(e: PdfFailure, a: ApiError)
    requires
        converts_failure(e, a),
    ensures
        a.status_spec() == 400 || a.status_spec() == 422,
        a.status_spec() == 400 <==> e is NotAPdf,
{
}

/// What a reply says, stated on the reply itself: a 4xx or 5xx status, 5xx
/// exactly for server faults (busy or failed); 400 for upload problems and 422
/// for documents the engine refused; and the free-form text of a parse or
/// internal error passed on unchanged, the engine's reason for a non-PDF kept at
/// the end of the message.
pub proof fn lemma_reply_statuses(e: ApiError, reply: (u16, ErrorResponse))
    requires
        call_ensures(ApiError::into_response_parts, (e,), reply),
    ensures
        400 <= reply.0 < 600,
        reply.0 >= 500 <==> (e is ServerBusy || e is Internal),
        (e is MissingFile || e is EmptyUpload || e is NotAPdf) ==> reply.0 == 400,
        (e is InvalidStructure || e is Parse || e is Encrypted) ==> reply.0 == 422,
        e is ServerBusy ==> reply.0 == 503,
        e is Internal ==> reply.0 == 500,
        e matches ApiError::Parse(m) ==> reply.1.message@ == m@,
        e matches ApiError::Internal(m) ==> reply.1.message@ == m@,
        e matches ApiError::NotAPdf(m) ==> (reply.1.message@.len() >= m@.len()
            && reply.1.message@.subrange(
            reply.1.message@.len() - m@.len(),
            reply.1.message@.len() as int,
        ) == m@),
{
    if let ApiError::NotAPdf(m) = e {
        let msg = reply.1.message@;
        assert(msg.subrange(msg.len() - m@.len(), msg.len() as int) =~= m@);
    }
}

/// Errors of different kinds are answered with different codes.
pub proof fn lemma_reply_codes_distinct(
    a: ApiError,
    b: ApiError,
    ra: (u16, ErrorResponse),
    rb: (u16, ErrorResponse),
)
    requires
        call_ensures(ApiError::into_response_parts, (a,), ra),
        call_ensures(ApiError::into_response_parts, (b,), rb),
        error_kind(a) != error_kind(b),
    ensures
        ra.1.error@ != rb.1.error@,
{
    lemma_error_code_identifies_kind(a, b);
}

/// The position of an error's kind among the kinds.
pub open spec fn error_kind(a: ApiError) -> int {
    match a {
        ApiError::MissingFile => 0,
        ApiError::EmptyUpload => 1,
        ApiError::NotAPdf(_) => 2,
        ApiError::InvalidStructure => 3,
        ApiError::Parse(_) => 4,
        ApiError::Encrypted => 5,
        ApiError::ServerBusy => 6,
        ApiError::Internal(_) => 7,
    }
}

/// The machine-readable code of a reply tells the kind of error: two errors with
/// the same code are of the same kind.
pub proof fn lemma_error_code_identifies_kind(a: ApiError, b: ApiError)
    ensures
        a.code_spec() == b.code_spec() ==> error_kind(a) == error_kind(b),
{
    reveal_strlit("missing_file");
    reveal_strlit("empty_upload");
    reveal_strlit("not_a_pdf");
    reveal_strlit("invalid_structure");
    reveal_strlit("parse_error");
    reveal_strlit("encrypted");
    reveal_strlit("server_busy");
    reveal_strlit("internal_error");
    if a.code_spec() == b.code_spec() && error_kind(a) != error_kind(b) {
        assert(a.code_spec().len() == b.code_spec().len());
        assert(a.code_spec()[0] == b.code_spec()[0]);
        assert(a.code_spec()[1] == b.code_spec()[1]);
    }
}

} // verus!
