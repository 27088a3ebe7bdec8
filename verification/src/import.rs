//! The import of one paper, step by step. The library decides; its caller
//! does the work. Each step but the last names one piece of work with
//! files or the network; the caller does it, reports what came of it as an
//! event, and is given the next step. The last step holds the result.

use crate::feed::{
    paper_metadata, paper_of_entry, paper_view, ArxivPaperMetadata, FeedEntry, FeedEntryView,
    PaperView,
};
use crate::filename::{
    file_stem, name_of_title, pdf_file_name, record_file_name, sanitize_title_for_filename,
    stem_with,
};
use crate::identifier::{
    arxiv_identifier, identifier_given, identity_view, parse_arxiv_input,
};
use crate::outcome::{
    already_there, downloaded, downloaded_result, exists_result, seconds_since_epoch, sidecar_of,
    sidecar_record, skipped, skipped_result, ArxivImportResult, ResultView, SidecarRecord,
    SidecarView, SkipReason,
};
use crate::spacing::{trim, trimmed};
use crate::text::{chars_of, glue, same_chars, view_of};
use vstd::prelude::*;

verus! {

/// One step of an import: the work that the caller is to do next, with what
/// the import has found out so far; or the result.
#[derive(Debug)]
pub enum ImportStep {
    /// See whether `target_dir` exists, and whether it is a directory.
    ProbeTarget { target_dir: String, base_id: String, requested: Option<u32> },
    /// Create the directory `target_dir` with the directories above it, and
    /// see whether it is a directory then.
    CreateTarget { target_dir: String, base_id: String, requested: Option<u32> },
    /// Fetch the feed at `url`.
    FetchFeed { url: String, base_id: String, requested: Option<u32> },
    /// Decode the feed `xml` into its entries.
    DecodeFeed { xml: String, base_id: String, requested: Option<u32> },
    /// See whether the two files of those names are in the target directory,
    /// and under which paths.
    ProbeFiles { pdf_name: String, metadata_name: String, paper: ArxivPaperMetadata },
    /// Fetch the PDF at `url`.
    DownloadPdf { url: String, pdf_path: String, metadata_path: String, paper: ArxivPaperMetadata },
    /// Write `bytes` to the file `path`.
    WritePdf { path: String, bytes: Vec<u8>, metadata_path: String, paper: ArxivPaperMetadata },
    /// Write `record` to the file `path`.
    WriteSidecar { path: String, record: SidecarRecord, pdf_size: u64 },
    /// Nothing is left to do.
    Finished { result: ArxivImportResult },
}

/// A step of an import as character sequences.
pub enum StepView {
    ProbeTarget { target_dir: Seq<char>, base_id: Seq<char>, requested: Option<u32> },
    CreateTarget { target_dir: Seq<char>, base_id: Seq<char>, requested: Option<u32> },
    FetchFeed { url: Seq<char>, base_id: Seq<char>, requested: Option<u32> },
    DecodeFeed { xml: Seq<char>, base_id: Seq<char>, requested: Option<u32> },
    ProbeFiles { pdf_name: Seq<char>, metadata_name: Seq<char>, paper: PaperView },
    DownloadPdf { url: Seq<char>, pdf_path: Seq<char>, metadata_path: Seq<char>, paper: PaperView },
    WritePdf { path: Seq<char>, bytes: Seq<u8>, metadata_path: Seq<char>, paper: PaperView },
    WriteSidecar { path: Seq<char>, record: SidecarView, pdf_size: u64 },
    Finished { result: ResultView },
}

impl View for ImportStep {
    type V = StepView;

    open spec fn view(&self) -> StepView {
        match *self {
            ImportStep::ProbeTarget { target_dir, base_id, requested } => StepView::ProbeTarget {
                target_dir: target_dir@,
                base_id: base_id@,
                requested,
            },
            ImportStep::CreateTarget { target_dir, base_id, requested } => StepView::CreateTarget {
                target_dir: target_dir@,
                base_id: base_id@,
                requested,
            },
            ImportStep::FetchFeed { url, base_id, requested } => StepView::FetchFeed {
                url: url@,
                base_id: base_id@,
                requested,
            },
            ImportStep::DecodeFeed { xml, base_id, requested } => StepView::DecodeFeed {
                xml: xml@,
                base_id: base_id@,
                requested,
            },
            ImportStep::ProbeFiles { pdf_name, metadata_name, paper } => StepView::ProbeFiles {
                pdf_name: pdf_name@,
                metadata_name: metadata_name@,
                paper: paper@,
            },
            ImportStep::DownloadPdf { url, pdf_path, metadata_path, paper } => StepView::DownloadPdf {
                url: url@,
                pdf_path: pdf_path@,
                metadata_path: metadata_path@,
                paper: paper@,
            },
            ImportStep::WritePdf { path, bytes, metadata_path, paper } => StepView::WritePdf {
                path: path@,
                bytes: bytes@,
                metadata_path: metadata_path@,
                paper: paper@,
            },
            ImportStep::WriteSidecar { path, record, pdf_size } => StepView::WriteSidecar {
                path: path@,
                record: record@,
                pdf_size,
            },
            ImportStep::Finished { result } => StepView::Finished { result: result@ },
        }
    }
}

/// What came of the work of a step.
#[derive(Debug)]
pub enum ImportEvent {
    /// The target was looked at.
    TargetProbed { exists: bool, is_directory: bool },
    /// The target was to be created: whether that went well, and whether it
    /// is a directory now.
    TargetCreated { created: bool, is_directory: bool },
    /// No answer came to the request for the feed.
    FeedUnreachable,
    /// The request for the feed was answered with `status`; `body` is the
    /// text that came with it, absent where none was read.
    FeedAnswered { status: u16, body: Option<String> },
    /// The feed was decoded: its entries in order, or nothing where the
    /// text is no feed.
    FeedDecoded { entries: Option<Vec<FeedEntry>> },
    /// The two files were looked for: the path of each in the target
    /// directory, and whether it is there.
    FilesProbed { pdf_path: String, pdf_exists: bool, metadata_path: String, metadata_exists: bool },
    /// No answer came to the request for the PDF.
    PdfUnreachable,
    /// The request for the PDF was answered with `status`; `content` holds the
    /// bytes that came with it, absent where none were read.
    PdfAnswered { status: u16, content: Option<Vec<u8>> },
    /// The PDF was to be written: whether that went well.
    PdfWritten { written: bool },
    /// The record was to be written: whether that went well.
    SidecarWritten { written: bool },
}

/// An event as character sequences.
pub enum EventView {
    TargetProbed { exists: bool, is_directory: bool },
    TargetCreated { created: bool, is_directory: bool },
    FeedUnreachable,
    FeedAnswered { status: u16, body: Option<Seq<char>> },
    FeedDecoded { entries: Option<Seq<FeedEntryView>> },
    FilesProbed {
        pdf_path: Seq<char>,
        pdf_exists: bool,
        metadata_path: Seq<char>,
        metadata_exists: bool,
    },
    PdfUnreachable,
    PdfAnswered { status: u16, content: Option<Seq<u8>> },
    PdfWritten { written: bool },
    SidecarWritten { written: bool },
}

/// The entries of a feed as character sequences.
pub open spec fn entry_views(entries: Seq<FeedEntry>) -> Seq<FeedEntryView> {
    Seq::new(entries.len(), |i: int| entries[i]@)
}

impl View for ImportEvent {
    type V = EventView;

    open spec fn view(&self) -> EventView {
        match *self {
            ImportEvent::TargetProbed { exists, is_directory } => EventView::TargetProbed {
                exists,
                is_directory,
            },
            ImportEvent::TargetCreated { created, is_directory } => EventView::TargetCreated {
                created,
                is_directory,
            },
            ImportEvent::FeedUnreachable => EventView::FeedUnreachable,
            ImportEvent::FeedAnswered { status, body } => EventView::FeedAnswered {
                status,
                body: view_of(body),
            },
            ImportEvent::FeedDecoded { entries } => EventView::FeedDecoded {
                entries: match entries {
                    Some(es) => Some(entry_views(es@)),
                    None => None,
                },
            },
            ImportEvent::FilesProbed {
                pdf_path,
                pdf_exists,
                metadata_path,
                metadata_exists,
            } => EventView::FilesProbed {
                pdf_path: pdf_path@,
                pdf_exists,
                metadata_path: metadata_path@,
                metadata_exists,
            },
            ImportEvent::PdfUnreachable => EventView::PdfUnreachable,
            ImportEvent::PdfAnswered { status, content } => EventView::PdfAnswered {
                status,
                content: match content {
                    Some(bytes) => Some(bytes@),
                    None => None,
                },
            },
            ImportEvent::PdfWritten { written } => EventView::PdfWritten { written },
            ImportEvent::SidecarWritten { written } => EventView::SidecarWritten { written },
        }
    }
}

/// The address at which the feed answers for the paper `base_id`.
pub open spec fn feed_address(base_id: Seq<char>) -> Seq<char> {
    "https://export.arxiv.org/api/query?id_list="@ + base_id
}

/// Whether an answer with this status is a success.
pub open spec fn success(status: u16) -> bool {
    200 <= status <= 299
}

/// The last step of an import that is skipped for the given reason.
pub open spec fn finished(reason: SkipReason, paper: Option<PaperView>) -> StepView {
    StepView::Finished { result: skipped(reason.code(), paper) }
}

/// The first step of an import, given what the input says as an identifier.
/// Any conflict policy but `skip` ends the import at once, and so do an
/// input that names no paper and a blank target directory, in this order.
pub open spec fn first_step(
    identity: Option<(Seq<char>, Option<u32>)>,
    target_dir: Seq<char>,
    policy: Seq<char>,
) -> StepView {
    if policy != "skip"@ {
        finished(SkipReason::InvalidConflictPolicy, None)
    } else {
        match identity {
            None => finished(SkipReason::InvalidLink, None),
            Some((base_id, requested)) => if trimmed(target_dir).len() == 0 {
                finished(SkipReason::WriteFailed, None)
            } else {
                StepView::ProbeTarget { target_dir, base_id, requested }
            },
        }
    }
}

/// The step that looks for the two files of `paper`, given the name made
/// from the paper's title.
pub open spec fn files_step(paper: PaperView, name: Seq<char>) -> StepView {
    StepView::ProbeFiles {
        pdf_name: pdf_file_name(file_stem(paper.arxiv_id, paper.version, name)),
        metadata_name: record_file_name(file_stem(paper.arxiv_id, paper.version, name)),
        paper,
    }
}

/// The step that fetches the feed for the paper `base_id`.
pub open spec fn feed_step(base_id: Seq<char>, requested: Option<u32>) -> StepView {
    StepView::FetchFeed { url: feed_address(base_id), base_id, requested }
}

/// The step that follows `step` when `event` is reported. `name` is the
/// name made from the paper's title, which counts where the feed was
/// decoded; `seconds` is the time, which counts where the PDF was written.
/// An event that does not answer the step leaves the step as it is.
pub open spec fn next_step(
    step: StepView,
    event: EventView,
    name: Seq<char>,
    seconds: Option<u64>,
) -> StepView {
    match step {
        StepView::ProbeTarget { target_dir, base_id, requested } => match event {
            EventView::TargetProbed { exists, is_directory } => if !exists {
                StepView::CreateTarget { target_dir, base_id, requested }
            } else if !is_directory {
                finished(SkipReason::WriteFailed, None)
            } else {
                feed_step(base_id, requested)
            },
            _ => step,
        },
        StepView::CreateTarget { target_dir, base_id, requested } => match event {
            EventView::TargetCreated { created, is_directory } => if created && is_directory {
                feed_step(base_id, requested)
            } else {
                finished(SkipReason::WriteFailed, None)
            },
            _ => step,
        },
        StepView::FetchFeed { url, base_id, requested } => match event {
            EventView::FeedUnreachable => finished(SkipReason::NetworkError, None),
            EventView::FeedAnswered { status, body } => match body {
                Some(xml) => if success(status) {
                    StepView::DecodeFeed { xml, base_id, requested }
                } else {
                    finished(SkipReason::NetworkError, None)
                },
                None => finished(SkipReason::NetworkError, None),
            },
            _ => step,
        },
        StepView::DecodeFeed { xml, base_id, requested } => match event {
            EventView::FeedDecoded { entries } => match entries {
                Some(es) => if es.len() > 0 {
                    files_step(paper_of_entry(base_id, requested, es[0]), name)
                } else {
                    finished(SkipReason::PaperNotFound, None)
                },
                None => finished(SkipReason::PaperNotFound, None),
            },
            _ => step,
        },
        StepView::ProbeFiles { pdf_name, metadata_name, paper } => match event {
            EventView::FilesProbed {
                pdf_path,
                pdf_exists,
                metadata_path,
                metadata_exists,
            } => if pdf_exists {
                StepView::Finished {
                    result: already_there(
                        pdf_path,
                        if metadata_exists {
                            Some(metadata_path)
                        } else {
                            None
                        },
                        paper,
                    ),
                }
            } else {
                StepView::DownloadPdf { url: paper.pdf_url, pdf_path, metadata_path, paper }
            },
            _ => step,
        },
        StepView::DownloadPdf { url, pdf_path, metadata_path, paper } => match event {
            EventView::PdfUnreachable => finished(SkipReason::NetworkError, Some(paper)),
            EventView::PdfAnswered { status, content } => if !success(status) {
                if status == 404 {
                    finished(SkipReason::PaperNotFound, Some(paper))
                } else {
                    finished(SkipReason::NetworkError, Some(paper))
                }
            } else {
                match content {
                    Some(bytes) => StepView::WritePdf { path: pdf_path, bytes, metadata_path, paper },
                    None => finished(SkipReason::NetworkError, Some(paper)),
                }
            },
            _ => step,
        },
        StepView::WritePdf { path, bytes, metadata_path, paper } => match event {
            EventView::PdfWritten { written } => if written {
                StepView::WriteSidecar {
                    path: metadata_path,
                    record: sidecar_of(paper, path, seconds),
                    pdf_size: bytes.len() as u64,
                }
            } else {
                finished(SkipReason::WriteFailed, Some(paper))
            },
            _ => step,
        },
        StepView::WriteSidecar { path, record, pdf_size } => match event {
            EventView::SidecarWritten { written } => if written {
                StepView::Finished {
                    result: downloaded(record.pdf_path, pdf_size, path, record.paper),
                }
            } else {
                finished(SkipReason::WriteFailed, Some(record.paper))
            },
            _ => step,
        },
        StepView::Finished { result } => step,
    }
}

/// The last step of an import that is skipped for the given reason.
pub fn finish(reason: SkipReason, paper: Option<ArxivPaperMetadata>) -> (r: ImportStep)
    ensures
        r@ == finished(reason, paper_view(paper)),
{
    ImportStep::Finished { result: skipped_result(reason.as_str(), paper) }
}

/// The first step of an import, given what the input says as an identifier.
pub fn plan(identity: Option<(String, Option<u32>)>, target_dir: &str, policy: &str) -> (r:
    ImportStep)
    ensures
        r@ == first_step(identity_view(identity), target_dir@, policy@),
{
    if !same_chars(&chars_of(policy), &chars_of("skip")) {
        return finish(SkipReason::InvalidConflictPolicy, None);
    }
    match identity {
        None => finish(SkipReason::InvalidLink, None),
        Some((base_id, requested)) => {
            if trim(&chars_of(target_dir)).len() == 0 {
                finish(SkipReason::WriteFailed, None)
            } else {
                ImportStep::ProbeTarget {
                    target_dir: String::from_str(target_dir),
                    base_id,
                    requested,
                }
            }
        },
    }
}

/// The first step of the import of what `input` names into `target_dir`.
/// Any conflict policy but `skip` ends the import at once, before the input
/// is read and before any work with files or the network is asked for.
pub fn begin(input: &str, target_dir: &str, policy: &str) -> (r: ImportStep)
    ensures
        r@ == first_step(arxiv_identifier(input@), target_dir@, policy@),
        policy@ != "skip"@ ==> r@ == finished(SkipReason::InvalidConflictPolicy, None),
        !input@.contains(':') ==> r@ == first_step(
            identifier_given(input@, None),
            target_dir@,
            policy@,
        ),
{
    if !same_chars(&chars_of(policy), &chars_of("skip")) {
        return finish(SkipReason::InvalidConflictPolicy, None);
    }
    plan(parse_arxiv_input(input), target_dir, policy)
}

/// The step that looks for the two files of `paper`, given the name made
/// from the paper's title.
pub fn probe_files(paper: ArxivPaperMetadata, name: &str) -> (r: ImportStep)
    ensures
        r@ == files_step(paper@, name@),
{
    let stem = stem_with(paper.arxiv_id.as_str(), paper.version, name);
    proof {
        reveal_strlit("");
        assert(stem@ + ".pdf"@ + ""@ == stem@ + ".pdf"@);
        assert(stem@ + ".metadata.json"@ + ""@ == stem@ + ".metadata.json"@);
    }
    ImportStep::ProbeFiles {
        pdf_name: glue(stem.as_str(), ".pdf", ""),
        metadata_name: glue(stem.as_str(), ".metadata.json", ""),
        paper,
    }
}

/// The step that fetches the feed for the paper `base_id`.
pub fn fetch_feed(base_id: String, requested: Option<u32>) -> (r: ImportStep)
    ensures
        r@ == feed_step(base_id@, requested),
{
    proof {
        reveal_strlit("");
        assert(feed_address(base_id@) + ""@ == feed_address(base_id@));
    }
    ImportStep::FetchFeed {
        url: glue("https://export.arxiv.org/api/query?id_list=", base_id.as_str(), ""),
        base_id,
        requested,
    }
}

/// The record of the paper that the first entry of a decoded feed
/// describes; nothing where the feed was not decoded or has no entry.
pub open spec fn first_paper(
    base_id: Seq<char>,
    requested: Option<u32>,
    entries: Option<Seq<FeedEntryView>>,
) -> Option<PaperView> {
    match entries {
        Some(es) => if es.len() > 0 {
            Some(paper_of_entry(base_id, requested, es[0]))
        } else {
            None
        },
        None => None,
    }
}

fn paper_from(base_id: &str, requested: Option<u32>, entries: Option<Vec<FeedEntry>>) -> (r:
    Option<ArxivPaperMetadata>)
    ensures
        paper_view(r) == first_paper(
            base_id@,
            requested,
            match entries {
                Some(es) => Some(entry_views(es@)),
                None => None,
            },
        ),
{
    match entries {
        Some(es) => {
            let mut es = es;
            if es.len() > 0 {
                let ghost first = es@[0]@;
                let entry = es.remove(0);
                assert(entry@ == first);
                Some(paper_metadata(base_id, requested, entry))
            } else {
                None
            }
        },
        None => None,
    }
}

fn is_success(status: u16) -> (r: bool)
    ensures
        r == success(status),
{
    200 <= status && status <= 299
}

/// The step that follows `step` when `event` is reported, given the name
/// made from the paper's title and the time.
pub fn transition(step: ImportStep, event: ImportEvent, name: &str, seconds: Option<u64>) -> (r:
    ImportStep)
    ensures
        r@ == next_step(step@, event@, name@, seconds),
{
    match step {
        ImportStep::ProbeTarget { target_dir, base_id, requested } => match event {
            ImportEvent::TargetProbed { exists, is_directory } => {
                if !exists {
                    ImportStep::CreateTarget { target_dir, base_id, requested }
                } else if !is_directory {
                    finish(SkipReason::WriteFailed, None)
                } else {
                    fetch_feed(base_id, requested)
                }
            },
            _ => ImportStep::ProbeTarget { target_dir, base_id, requested },
        },
        ImportStep::CreateTarget { target_dir, base_id, requested } => match event {
            ImportEvent::TargetCreated { created, is_directory } => {
                if created && is_directory {
                    fetch_feed(base_id, requested)
                } else {
                    finish(SkipReason::WriteFailed, None)
                }
            },
            _ => ImportStep::CreateTarget { target_dir, base_id, requested },
        },
        ImportStep::FetchFeed { url, base_id, requested } => match event {
            ImportEvent::FeedUnreachable => finish(SkipReason::NetworkError, None),
            ImportEvent::FeedAnswered { status, body } => match body {
                Some(xml) => {
                    if is_success(status) {
                        ImportStep::DecodeFeed { xml, base_id, requested }
                    } else {
                        finish(SkipReason::NetworkError, None)
                    }
                },
                None => finish(SkipReason::NetworkError, None),
            },
            _ => ImportStep::FetchFeed { url, base_id, requested },
        },
        ImportStep::DecodeFeed { xml, base_id, requested } => match event {
            ImportEvent::FeedDecoded { entries } => {
                match paper_from(base_id.as_str(), requested, entries) {
                    Some(paper) => probe_files(paper, name),
                    None => finish(SkipReason::PaperNotFound, None),
                }
            },
            _ => ImportStep::DecodeFeed { xml, base_id, requested },
        },
        ImportStep::ProbeFiles { pdf_name, metadata_name, paper } => match event {
            ImportEvent::FilesProbed { pdf_path, pdf_exists, metadata_path, metadata_exists } => {
                if pdf_exists {
                    let beside = if metadata_exists {
                        Some(metadata_path)
                    } else {
                        None
                    };
                    ImportStep::Finished { result: exists_result(pdf_path, beside, paper) }
                } else {
                    ImportStep::DownloadPdf {
                        url: paper.pdf_url.clone(),
                        pdf_path,
                        metadata_path,
                        paper,
                    }
                }
            },
            _ => ImportStep::ProbeFiles { pdf_name, metadata_name, paper },
        },
        ImportStep::DownloadPdf { url, pdf_path, metadata_path, paper } => match event {
            ImportEvent::PdfUnreachable => finish(SkipReason::NetworkError, Some(paper)),
            ImportEvent::PdfAnswered { status, content } => {
                if !is_success(status) {
                    if status == 404 {
                        finish(SkipReason::PaperNotFound, Some(paper))
                    } else {
                        finish(SkipReason::NetworkError, Some(paper))
                    }
                } else {
                    match content {
                        Some(bytes) => ImportStep::WritePdf {
                            path: pdf_path,
                            bytes,
                            metadata_path,
                            paper,
                        },
                        None => finish(SkipReason::NetworkError, Some(paper)),
                    }
                }
            },
            _ => ImportStep::DownloadPdf { url, pdf_path, metadata_path, paper },
        },
        ImportStep::WritePdf { path, bytes, metadata_path, paper } => match event {
            ImportEvent::PdfWritten { written } => {
                if written {
                    ImportStep::WriteSidecar {
                        path: metadata_path,
                        record: sidecar_record(paper, path, seconds),
                        pdf_size: bytes.len() as u64,
                    }
                } else {
                    finish(SkipReason::WriteFailed, Some(paper))
                }
            },
            _ => ImportStep::WritePdf { path, bytes, metadata_path, paper },
        },
        ImportStep::WriteSidecar { path, record, pdf_size } => match event {
            ImportEvent::SidecarWritten { written } => {
                if written {
                    ImportStep::Finished {
                        result: downloaded_result(record.pdf_path, pdf_size, path, record.paper),
                    }
                } else {
                    finish(SkipReason::WriteFailed, Some(record.paper))
                }
            },
            _ => ImportStep::WriteSidecar { path, record, pdf_size },
        },
        ImportStep::Finished { result } => ImportStep::Finished { result },
    }
}

/// Whether `name` may be the name made from the title of the paper that
/// `event` brings to `step`; any name may, where the event brings none.
pub open spec fn names_title(step: StepView, event: EventView, name: Seq<char>) -> bool {
    match step {
        StepView::DecodeFeed { xml, base_id, requested } => match event {
            EventView::FeedDecoded { entries } => match first_paper(base_id, requested, entries) {
                Some(paper) => name_of_title(name, paper.title),
                None => true,
            },
            _ => true,
        },
        _ => true,
    }
}

/// The step that follows `step` when `event` is reported. Where the feed
/// was decoded, the name for the two files is made from the paper's title;
/// where the PDF was written, the clock is read for the record. In both
/// the outcome of outside work counts, so the contract says what holds of
/// every name that can be made and of every time.
pub fn advance(step: ImportStep, event: ImportEvent) -> (r: ImportStep)
    ensures
        exists|name: Seq<char>, seconds: Option<u64>|
            names_title(step@, event@, name) && r@ == #[trigger] next_step(
                step@,
                event@,
                name,
                seconds,
            ),
{
    let ghost before = step@;
    let ghost reported = event@;
    match step {
        ImportStep::DecodeFeed { xml, base_id, requested } => match event {
            ImportEvent::FeedDecoded { entries } => {
                match paper_from(base_id.as_str(), requested, entries) {
                    Some(paper) => {
                        let name = sanitize_title_for_filename(paper.title.as_str());
                        let r = probe_files(paper, name.as_str());
                        assert(names_title(before, reported, name@) && r@ == next_step(
                            before,
                            reported,
                            name@,
                            None,
                        ));
                        r
                    },
                    None => {
                        let r = finish(SkipReason::PaperNotFound, None);
                        assert(names_title(before, reported, Seq::empty()) && r@ == next_step(
                            before,
                            reported,
                            Seq::empty(),
                            None,
                        ));
                        r
                    },
                }
            },
            other => {
                let r = transition(ImportStep::DecodeFeed { xml, base_id, requested }, other, "", None);
                assert(names_title(before, reported, ""@) && r@ == next_step(
                    before,
                    reported,
                    ""@,
                    None,
                ));
                r
            },
        },
        ImportStep::WritePdf { path, bytes, metadata_path, paper } => {
            let seconds = match event {
                ImportEvent::PdfWritten { written } => if written {
                    seconds_since_epoch()
                } else {
                    None
                },
                _ => None,
            };
            let r = transition(
                ImportStep::WritePdf { path, bytes, metadata_path, paper },
                event,
                "",
                seconds,
            );
            assert(names_title(before, reported, ""@) && r@ == next_step(
                before,
                reported,
                ""@,
                seconds,
            ));
            r
        },
        other => {
            let r = transition(other, event, "", None);
            assert(names_title(before, reported, ""@) && r@ == next_step(
                before,
                reported,
                ""@,
                None,
            ));
            r
        },
    }
}

/// The record of the paper that a step holds: none before the feed was
/// decoded.
pub open spec fn paper_known(step: StepView) -> Option<PaperView> {
    match step {
        StepView::ProbeFiles { pdf_name, metadata_name, paper } => Some(paper),
        StepView::DownloadPdf { url, pdf_path, metadata_path, paper } => Some(paper),
        StepView::WritePdf { path, bytes, metadata_path, paper } => Some(paper),
        StepView::WriteSidecar { path, record, pdf_size } => Some(record.paper),
        StepView::Finished { result } => result.paper,
        _ => None,
    }
}

/// Whether the step asks for work on the network.
pub open spec fn asks_network(step: StepView) -> bool {
    step is FetchFeed || step is DownloadPdf
}

/// With any conflict policy but `skip` an import ends with its first step,
/// for that reason, whatever the input says: no work is asked for, on the
/// network or elsewhere.
pub proof fn other_policies_end_at_once(
    identity: Option<(Seq<char>, Option<u32>)>,
    target_dir: Seq<char>,
    policy: Seq<char>,
)
    requires
        policy != "skip"@,
    ensures
        first_step(identity, target_dir, policy) == finished(
            SkipReason::InvalidConflictPolicy,
            None,
        ),
        !asks_network(first_step(identity, target_dir, policy)),
{
}

/// An import that ends carries the paper's record exactly where the step
/// before held one: every end after the feed was decoded, and none before.
/// It ends as downloaded only where the record beside the PDF was written;
/// every other end is a skip.
pub proof fn ends_carry_the_paper(
    step: StepView,
    event: EventView,
    name: Seq<char>,
    seconds: Option<u64>,
)
    requires
        !(step is Finished),
        next_step(step, event, name, seconds) is Finished,
    ensures
        next_step(step, event, name, seconds)->result.paper == paper_known(step),
        next_step(step, event, name, seconds)->result.status == "downloaded"@ <==> step
            is WriteSidecar && event == (EventView::SidecarWritten { written: true }),
        next_step(step, event, name, seconds)->result.status != "downloaded"@
            ==> next_step(step, event, name, seconds)->result.status == "skipped"@ && next_step(
            step,
            event,
            name,
            seconds,
        )->result.reason is Some,
{
    reveal_strlit("downloaded");
    reveal_strlit("skipped");
    assert("downloaded"@ != "skipped"@) by {
        assert("downloaded"@.len() != "skipped"@.len());
    }
}

/// Where the PDF is already there, the import ends as skipped for that
/// reason, names the PDF, and carries the paper's record.
pub proof fn present_file_is_kept(
    pdf_name: Seq<char>,
    metadata_name: Seq<char>,
    paper: PaperView,
    pdf_path: Seq<char>,
    metadata_path: Seq<char>,
    metadata_exists: bool,
    name: Seq<char>,
    seconds: Option<u64>,
)
    ensures
        ({
            let end = next_step(
                StepView::ProbeFiles { pdf_name, metadata_name, paper },
                EventView::FilesProbed {
                    pdf_path,
                    pdf_exists: true,
                    metadata_path,
                    metadata_exists,
                },
                name,
                seconds,
            );
            &&& end is Finished
            &&& end->result.status == "skipped"@
            &&& end->result.reason == Some(SkipReason::FileExists.code())
            &&& end->result.pdf_path == Some(pdf_path)
            &&& end->result.paper == Some(paper)
        }),
{
}

} // verus!
