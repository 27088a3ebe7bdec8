//! Papers from arXiv, brought into a directory of PDF files.
//!
//! The library reads what a user hands in as the identifier of a paper,
//! makes the paper's record from the entry of the metadata feed, names the
//! two files under which the paper is kept, and decides each step of an
//! import; its caller does the work on files and on the network. It also
//! puts in order what a scan of a directory found.

pub mod feed;
pub mod filename;
pub mod greeting;
pub mod identifier;
pub mod import;
pub mod number;
pub mod outcome;
pub mod runs;
pub mod scan;
pub mod spacing;
pub mod text;

pub use crate::feed::ArxivPaperMetadata;
pub use crate::filename::sanitize_title_for_filename;
pub use crate::identifier::{parse_arxiv_input, parse_plain_arxiv_id};
pub use crate::outcome::{skipped_result, unix_timestamp_string, ArxivImportResult};
pub use crate::scan::{FileMetadata, PdfFile, ScanResult};
pub use crate::spacing::compact_text;
