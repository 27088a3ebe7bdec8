//! How an import ends: the result that is handed back, the reasons for which
//! a paper is skipped, and the record that is written beside a PDF.

use crate::feed::{paper_view, ArxivPaperMetadata, PaperView};
use crate::number::{decimal, decimal_chars};
use crate::text::{text_of, view_of};
use vstd::prelude::*;

verus! {

/// Why a paper was skipped.
#[derive(Clone, Copy, Debug, PartialEq, Eq, Structural)]
pub enum SkipReason {
    /// A conflict policy other than `skip` was asked for.
    InvalidConflictPolicy,
    /// The input is neither an identifier nor an address that names one.
    InvalidLink,
    /// The target directory, the PDF or the record could not be written.
    WriteFailed,
    /// The feed or the PDF could not be fetched.
    NetworkError,
    /// The feed knows no such paper, or there is no PDF of it.
    PaperNotFound,
    /// The PDF is already there.
    FileExists,
}

impl SkipReason {
    /// The word by which the reason is handed back.
    pub open spec fn code(self) -> Seq<char> {
        match self {
            SkipReason::InvalidConflictPolicy => "invalid_conflict_policy"@,
            SkipReason::InvalidLink => "invalid_link"@,
            SkipReason::WriteFailed => "write_failed"@,
            SkipReason::NetworkError => "network_error"@,
            SkipReason::PaperNotFound => "paper_not_found"@,
            SkipReason::FileExists => "file_exists"@,
        }
    }

    /// The word by which the reason is handed back.
    pub fn as_str(&self) -> (r: &'static str)
        ensures
            r@ == self.code(),
    {
        match self {
            SkipReason::InvalidConflictPolicy => "invalid_conflict_policy",
            SkipReason::InvalidLink => "invalid_link",
            SkipReason::WriteFailed => "write_failed",
            SkipReason::NetworkError => "network_error",
            SkipReason::PaperNotFound => "paper_not_found",
            SkipReason::FileExists => "file_exists",
        }
    }
}

/// What an import hands back. `status` is `downloaded` or `skipped`; a
/// skipped import gives its reason, a downloaded one the two files and the
/// size of the PDF. `paper` is there whenever the paper's record was made,
/// also where the import was skipped after that.
#[derive(Debug, Clone)]
pub struct ArxivImportResult {
    pub status: String,
    pub reason: Option<String>,
    pub pdf_path: Option<String>,
    pub pdf_size: Option<u64>,
    pub metadata_path: Option<String>,
    pub paper: Option<ArxivPaperMetadata>,
}

/// The result of an import as character sequences.
pub struct ResultView {
    pub status: Seq<char>,
    pub reason: Option<Seq<char>>,
    pub pdf_path: Option<Seq<char>>,
    pub pdf_size: Option<u64>,
    pub metadata_path: Option<Seq<char>>,
    pub paper: Option<PaperView>,
}

impl View for ArxivImportResult {
    type V = ResultView;

    open spec fn view(&self) -> ResultView {
        ResultView {
            status: self.status@,
            reason: view_of(self.reason),
            pdf_path: view_of(self.pdf_path),
            pdf_size: self.pdf_size,
            metadata_path: view_of(self.metadata_path),
            paper: paper_view(self.paper),
        }
    }
}

/// The result of an import that was skipped for the given reason, with the
/// paper's record where it was made. It names no file.
pub open spec fn skipped(reason: Seq<char>, paper: Option<PaperView>) -> ResultView {
    ResultView {
        status: "skipped"@,
        reason: Some(reason),
        pdf_path: None,
        pdf_size: None,
        metadata_path: None,
        paper,
    }
}

/// The result of an import that was skipped because the PDF is already
/// there: it names the PDF, and the record beside it where that is there
/// too.
pub open spec fn already_there(
    pdf_path: Seq<char>,
    metadata_path: Option<Seq<char>>,
    paper: PaperView,
) -> ResultView {
    ResultView {
        status: "skipped"@,
        reason: Some(SkipReason::FileExists.code()),
        pdf_path: Some(pdf_path),
        pdf_size: None,
        metadata_path,
        paper: Some(paper),
    }
}

/// The result of an import that wrote both files.
pub open spec fn downloaded(
    pdf_path: Seq<char>,
    pdf_size: u64,
    metadata_path: Seq<char>,
    paper: PaperView,
) -> ResultView {
    ResultView {
        status: "downloaded"@,
        reason: None,
        pdf_path: Some(pdf_path),
        pdf_size: Some(pdf_size),
        metadata_path: Some(metadata_path),
        paper: Some(paper),
    }
}

/// The result of an import that was skipped for the given reason.
pub fn skipped_result(reason: &str, paper: Option<ArxivPaperMetadata>) -> (r: ArxivImportResult)
    ensures
        r@ == skipped(reason@, paper_view(paper)),
{
    ArxivImportResult {
        status: String::from_str("skipped"),
        reason: Some(String::from_str(reason)),
        pdf_path: None,
        pdf_size: None,
        metadata_path: None,
        paper,
    }
}

/// The result of an import that was skipped because the PDF is already
/// there.
pub fn exists_result(
    pdf_path: String,
    metadata_path: Option<String>,
    paper: ArxivPaperMetadata,
) -> (r: ArxivImportResult)
    ensures
        r@ == already_there(pdf_path@, view_of(metadata_path), paper@),
{
    ArxivImportResult {
        status: String::from_str("skipped"),
        reason: Some(String::from_str(SkipReason::FileExists.as_str())),
        pdf_path: Some(pdf_path),
        pdf_size: None,
        metadata_path,
        paper: Some(paper),
    }
}

/// The result of an import that wrote both files.
pub fn downloaded_result(
    pdf_path: String,
    pdf_size: u64,
    metadata_path: String,
    paper: ArxivPaperMetadata,
) -> (r: ArxivImportResult)
    ensures
        r@ == downloaded(pdf_path@, pdf_size, metadata_path@, paper@),
{
    ArxivImportResult {
        status: String::from_str("downloaded"),
        reason: None,
        pdf_path: Some(pdf_path),
        pdf_size: Some(pdf_size),
        metadata_path: Some(metadata_path),
        paper: Some(paper),
    }
}

/// The record that is written beside a PDF.
#[derive(Debug, Clone)]
pub struct SidecarRecord {
    /// Where the paper comes from: always `arxiv`.
    pub source: String,
    pub paper: ArxivPaperMetadata,
    /// When the PDF was written: seconds since 1970 in decimal notation.
    pub downloaded_at: String,
    /// Where the PDF was written.
    pub pdf_path: String,
}

/// The record beside a PDF as character sequences.
pub struct SidecarView {
    pub source: Seq<char>,
    pub paper: PaperView,
    pub downloaded_at: Seq<char>,
    pub pdf_path: Seq<char>,
}

impl View for SidecarRecord {
    type V = SidecarView;

    open spec fn view(&self) -> SidecarView {
        SidecarView {
            source: self.source@,
            paper: self.paper@,
            downloaded_at: self.downloaded_at@,
            pdf_path: self.pdf_path@,
        }
    }
}

/// A count of seconds in decimal notation, or `0` where there is no count.
pub open spec fn timestamp_text(seconds: Option<u64>) -> Seq<char> {
    match seconds {
        Some(n) => decimal(n as nat),
        None => "0"@,
    }
}

/// The record beside the PDF of `paper` at `pdf_path`, written at the given
/// count of seconds.
pub open spec fn sidecar_of(paper: PaperView, pdf_path: Seq<char>, seconds: Option<u64>) -> SidecarView {
    SidecarView {
        source: "arxiv"@,
        paper,
        downloaded_at: timestamp_text(seconds),
        pdf_path,
    }
}

/// The time that has passed since `std::time::UNIX_EPOCH`, as
/// `std::time::SystemTime::elapsed` measures it, in whole seconds; nothing
/// where the clock stands before that moment. Nothing is claimed of the
/// count: it is different at every call.
#[verifier::external_body]
pub(crate) fn seconds_since_epoch() -> Option<u64> {
    match std::time::UNIX_EPOCH.elapsed() {
        Ok(elapsed) => Some(elapsed.as_secs()),
        Err(_) => None,
    }
}

/// A count of seconds in decimal notation, or `0` where there is no count.
pub fn timestamp_string(seconds: Option<u64>) -> (r: String)
    ensures
        r@ == timestamp_text(seconds),
{
    match seconds {
        Some(n) => text_of(&decimal_chars(n)),
        None => String::from_str("0"),
    }
}

/// The time in seconds since 1970, in decimal notation; `0` where the clock
/// gives none.
pub fn unix_timestamp_string() -> (r: String)
    ensures
        exists|seconds: Option<u64>| r@ == #[trigger] timestamp_text(seconds),
{
    timestamp_string(seconds_since_epoch())
}

/// The record beside the PDF of `paper` at `pdf_path`, written at the given
/// count of seconds.
pub fn sidecar_record(paper: ArxivPaperMetadata, pdf_path: String, seconds: Option<u64>) -> (r:
    SidecarRecord)
    ensures
        r@ == sidecar_of(paper@, pdf_path@, seconds),
{
    SidecarRecord {
        source: String::from_str("arxiv"),
        paper,
        downloaded_at: timestamp_string(seconds),
        pdf_path,
    }
}

} // verus!
