//! Papers as the metadata feed describes them: the entry of a feed, the
//! version that it marks as the latest, and the record of a paper that is
//! made from it.

use crate::identifier::{arxiv_identifier, parse_arxiv_input};
use crate::number::{decimal, decimal_chars};
use crate::spacing::{compact, compact_text};
use crate::text::{
    chars_of, copy_texts, extend, glue, same_chars, text_of, view_of, views, views_of,
};
use vstd::prelude::*;

verus! {

/// One entry of the metadata feed, as it was decoded: each field may be
/// absent.
#[derive(Debug, Clone)]
pub struct FeedEntry {
    /// The entry's own identity: the address of the paper's abstract.
    pub id: Option<String>,
    pub title: Option<String>,
    pub summary: Option<String>,
    pub published: Option<String>,
    pub updated: Option<String>,
    /// The name of each author, in the feed's order.
    pub authors: Vec<Option<String>>,
    /// The address of each link, in the feed's order.
    pub links: Vec<Option<String>>,
}

/// A feed entry as character sequences.
pub struct FeedEntryView {
    pub id: Option<Seq<char>>,
    pub title: Option<Seq<char>>,
    pub summary: Option<Seq<char>>,
    pub published: Option<Seq<char>>,
    pub updated: Option<Seq<char>>,
    pub authors: Seq<Option<Seq<char>>>,
    pub links: Seq<Option<Seq<char>>>,
}

impl View for FeedEntry {
    type V = FeedEntryView;

    open spec fn view(&self) -> FeedEntryView {
        FeedEntryView {
            id: view_of(self.id),
            title: view_of(self.title),
            summary: view_of(self.summary),
            published: view_of(self.published),
            updated: view_of(self.updated),
            authors: views_of(self.authors@),
            links: views_of(self.links@),
        }
    }
}

/// The record of one paper in one version.
#[derive(Debug, Clone)]
pub struct ArxivPaperMetadata {
    /// The paper's identifier, without version.
    pub arxiv_id: String,
    pub version: u32,
    pub title: String,
    pub authors: Vec<String>,
    pub summary: String,
    pub published: String,
    pub updated: String,
    /// The address of the abstract of this version.
    pub abs_url: String,
    /// The address of the PDF of this version.
    pub pdf_url: String,
}

/// The record of a paper as character sequences.
pub struct PaperView {
    pub arxiv_id: Seq<char>,
    pub version: u32,
    pub title: Seq<char>,
    pub authors: Seq<Seq<char>>,
    pub summary: Seq<char>,
    pub published: Seq<char>,
    pub updated: Seq<char>,
    pub abs_url: Seq<char>,
    pub pdf_url: Seq<char>,
}

impl View for ArxivPaperMetadata {
    type V = PaperView;

    open spec fn view(&self) -> PaperView {
        PaperView {
            arxiv_id: self.arxiv_id@,
            version: self.version,
            title: self.title@,
            authors: views(self.authors@),
            summary: self.summary@,
            published: self.published@,
            updated: self.updated@,
            abs_url: self.abs_url@,
            pdf_url: self.pdf_url@,
        }
    }
}

impl ArxivPaperMetadata {
    /// A record that says the same.
    pub fn copy(&self) -> (r: ArxivPaperMetadata)
        ensures
            r@ == self@,
    {
        ArxivPaperMetadata {
            arxiv_id: self.arxiv_id.clone(),
            version: self.version,
            title: self.title.clone(),
            authors: copy_texts(&self.authors),
            summary: self.summary.clone(),
            published: self.published.clone(),
            updated: self.updated.clone(),
            abs_url: self.abs_url.clone(),
            pdf_url: self.pdf_url.clone(),
        }
    }
}

/// The record of a paper that may be absent, as character sequences.
pub open spec fn paper_view(p: Option<ArxivPaperMetadata>) -> Option<PaperView> {
    match p {
        Some(paper) => Some(paper@),
        None => None,
    }
}

/// The version that `text` marks for the paper `base_id`: `text` reads as
/// that paper's identifier, bare or in an address, with a version mark.
pub open spec fn version_marked(base_id: Seq<char>, text: Seq<char>) -> Option<u32> {
    match arxiv_identifier(text) {
        Some((base, Some(version))) => if base == base_id {
            Some(version)
        } else {
            None
        },
        _ => None,
    }
}

/// The version that a text which may be absent marks for the paper.
pub open spec fn version_marked_by(base_id: Seq<char>, text: Option<Seq<char>>) -> Option<u32> {
    match text {
        Some(t) => version_marked(base_id, t),
        None => None,
    }
}

/// The version that each of the texts marks for the paper.
pub open spec fn versions_marked(base_id: Seq<char>, texts: Seq<Option<Seq<char>>>) -> Seq<
    Option<u32>,
> {
    Seq::new(texts.len(), |i: int| version_marked_by(base_id, texts[i]))
}

/// `v`, or 1 where `v` is 0.
pub open spec fn at_least_one(v: u32) -> u32 {
    if v < 1 {
        1
    } else {
        v
    }
}

/// The first version that is marked, if any is.
pub open spec fn first_marked(marks: Seq<Option<u32>>) -> Option<u32>
    decreases marks.len(),
{
    if marks.len() == 0 {
        None
    } else if marks[0] is Some {
        marks[0]
    } else {
        first_marked(marks.drop_first())
    }
}

/// The latest version that an entry knows of, given the version that its
/// identity marks and the versions that its links mark, in order: that of
/// the identity, where it marks one; else that of the first link that marks
/// one; else 1. It is never below 1.
pub open spec fn resolved_version(identity: Option<u32>, links: Seq<Option<u32>>) -> u32 {
    match identity {
        Some(v) => at_least_one(v),
        None => match first_marked(links) {
            Some(v) => at_least_one(v),
            None => 1,
        },
    }
}

/// Where the identity of an entry marks a version, that version counts,
/// whatever the links mark.
pub proof fn identity_goes_first(version: u32, links: Seq<Option<u32>>)
    ensures
        resolved_version(Some(version), links) == at_least_one(version),
{
}

/// Where neither the identity of an entry nor any of its links marks a
/// version, the entry counts as version 1.
pub proof fn unmarked_entry_is_version_one(links: Seq<Option<u32>>)
    requires
        forall|i: int| 0 <= i < links.len() ==> (#[trigger] links[i]) is None,
    ensures
        resolved_version(None, links) == 1,
    decreases links.len(),
{
    if links.len() > 0 {
        let rest = links.drop_first();
        assert forall|i: int| 0 <= i < rest.len() implies (#[trigger] rest[i]) is None by {
            assert(rest[i] == links[i + 1]);
        }
        unmarked_entry_is_version_one(rest);
    }
}

/// The latest version of the paper `base_id` that the entry with the given
/// identity and links knows of.
pub open spec fn latest_version_of(
    base_id: Seq<char>,
    id: Option<Seq<char>>,
    links: Seq<Option<Seq<char>>>,
) -> u32 {
    resolved_version(version_marked_by(base_id, id), versions_marked(base_id, links))
}

/// The version that `text` marks for the paper `base_id`, if it marks one.
pub fn version_in(base_id: &str, text: &str) -> (r: Option<u32>)
    ensures
        r == version_marked(base_id@, text@),
{
    match parse_arxiv_input(text) {
        Some((base, Some(version))) => {
            if same_chars(&chars_of(base.as_str()), &chars_of(base_id)) {
                Some(version)
            } else {
                None
            }
        },
        _ => None,
    }
}

/// The latest version that an entry knows of, given the version that its
/// identity marks and the versions that its links mark, in order.
pub fn resolve_version(identity: Option<u32>, links: &Vec<Option<u32>>) -> (r: u32)
    ensures
        r == resolved_version(identity, links@),
        r >= 1,
        identity is Some ==> r == at_least_one(identity->0),
{
    match identity {
        Some(v) => {
            return if v < 1 {
                1
            } else {
                v
            };
        },
        None => {},
    }
    let mut i: usize = 0;
    assert(links@.skip(0) == links@);
    while i < links.len()
        invariant
            i <= links.len(),
            identity is None,
            first_marked(links@) == first_marked(links@.skip(i as int)),
        decreases links.len() - i,
    {
        match links[i] {
            Some(v) => {
                return if v < 1 {
                    1
                } else {
                    v
                };
            },
            None => {
                assert(links@.skip(i as int).drop_first() == links@.skip(i + 1));
            },
        }
        i += 1;
    }
    1
}

/// The latest version of the paper `base_id` that `entry` knows of.
pub fn latest_version(base_id: &str, entry: &FeedEntry) -> (r: u32)
    ensures
        r == latest_version_of(base_id@, entry@.id, entry@.links),
        r >= 1,
{
    let identity = match &entry.id {
        Some(text) => version_in(base_id, text.as_str()),
        None => None,
    };
    let mut marks: Vec<Option<u32>> = Vec::new();
    let mut i: usize = 0;
    while i < entry.links.len()
        invariant
            i <= entry.links.len(),
            marks@ == versions_marked(base_id@, entry@.links.take(i as int)),
        decreases entry.links.len() - i,
    {
        let mark = match &entry.links[i] {
            Some(text) => version_in(base_id, text.as_str()),
            None => None,
        };
        marks.push(mark);
        assert(marks@ == versions_marked(base_id@, entry@.links.take(i + 1)));
        i += 1;
    }
    assert(entry@.links.take(entry.links.len() as int) == entry@.links);
    resolve_version(identity, &marks)
}

/// The identifier of a paper in one version: the identifier, `v`, and the
/// version in decimal notation.
pub open spec fn versioned_id(base_id: Seq<char>, version: u32) -> Seq<char> {
    base_id + seq!['v'] + decimal(version as nat)
}

/// The address of the abstract of a paper in one version.
pub open spec fn abstract_address(base_id: Seq<char>, version: u32) -> Seq<char> {
    "https://arxiv.org/abs/"@ + versioned_id(base_id, version)
}

/// The address of the PDF of a paper in one version.
pub open spec fn pdf_address(base_id: Seq<char>, version: u32) -> Seq<char> {
    "https://arxiv.org/pdf/"@ + versioned_id(base_id, version) + ".pdf"@
}

/// The title of a paper: the entry's title with its white space made
/// compact, or, where that is absent or empty, `arXiv` and the identifier
/// with its version.
pub open spec fn title_of(title: Option<Seq<char>>, base_id: Seq<char>, version: u32) -> Seq<
    char,
> {
    match title {
        Some(t) => if compact(t).len() > 0 {
            compact(t)
        } else {
            "arXiv "@ + versioned_id(base_id, version)
        },
        None => "arXiv "@ + versioned_id(base_id, version),
    }
}

/// The summary of a paper: the entry's summary with its white space made
/// compact; empty where the entry has none.
pub open spec fn summary_of(summary: Option<Seq<char>>) -> Seq<char> {
    match summary {
        Some(s) => compact(s),
        None => Seq::empty(),
    }
}

/// A text that may be absent, or the empty text in its place.
pub open spec fn text_or_empty(text: Option<Seq<char>>) -> Seq<char> {
    match text {
        Some(t) => t,
        None => Seq::empty(),
    }
}

/// The names of the authors of a paper: the names that the entry gives, in
/// its order, each with its white space made compact, without those that are
/// absent or empty.
pub open spec fn author_names(authors: Seq<Option<Seq<char>>>) -> Seq<Seq<char>>
    decreases authors.len(),
{
    if authors.len() == 0 {
        Seq::empty()
    } else {
        let before = author_names(authors.drop_last());
        match authors.last() {
            Some(name) => if compact(name).len() > 0 {
                before.push(compact(name))
            } else {
                before
            },
            None => before,
        }
    }
}

/// The version that is imported: the one asked for, or else the latest
/// one; it is never below 1.
pub open spec fn effective_version(requested: Option<u32>, latest: u32) -> u32 {
    match requested {
        Some(v) => at_least_one(v),
        None => at_least_one(latest),
    }
}

/// The record of the paper `base_id` in the given version, as `entry`
/// describes the paper. The two addresses are made from the identifier and
/// the version, not taken from the entry.
pub open spec fn paper_in_version(base_id: Seq<char>, version: u32, entry: FeedEntryView) -> PaperView {
    PaperView {
        arxiv_id: base_id,
        version,
        title: title_of(entry.title, base_id, version),
        authors: author_names(entry.authors),
        summary: summary_of(entry.summary),
        published: text_or_empty(entry.published),
        updated: text_or_empty(entry.updated),
        abs_url: abstract_address(base_id, version),
        pdf_url: pdf_address(base_id, version),
    }
}

/// The record of the paper `base_id` as `entry` describes it, in the
/// version asked for or else in the latest version that the entry knows of.
pub open spec fn paper_of_entry(
    base_id: Seq<char>,
    requested: Option<u32>,
    entry: FeedEntryView,
) -> PaperView {
    paper_in_version(
        base_id,
        effective_version(requested, latest_version_of(base_id, entry.id, entry.links)),
        entry,
    )
}

/// The identifier of a paper in one version.
pub fn versioned_identifier(base_id: &str, version: u32) -> (r: String)
    ensures
        r@ == versioned_id(base_id@, version),
{
    let mut out = chars_of(base_id);
    out.push('v');
    extend(&mut out, &decimal_chars(version as u64));
    text_of(&out)
}

fn names_of(authors: &Vec<Option<String>>) -> (r: Vec<String>)
    ensures
        views(r@) == author_names(views_of(authors@)),
{
    let mut r: Vec<String> = Vec::new();
    let mut i: usize = 0;
    let ghost all = views_of(authors@);
    while i < authors.len()
        invariant
            i <= authors.len(),
            all == views_of(authors@),
            views(r@) == author_names(all.take(i as int)),
        decreases authors.len() - i,
    {
        let ghost before = views(r@);
        assert(all.take(i + 1).drop_last() == all.take(i as int));
        assert(all.take(i + 1).last() == view_of(authors@[i as int]));
        match &authors[i] {
            Some(name) => {
                let compacted = compact_text(name.as_str());
                if !compacted.as_str().is_empty() {
                    r.push(compacted);
                    assert(views(r@) =~= before.push(compacted@));
                }
            },
            None => {},
        }
        i += 1;
    }
    assert(all.take(authors.len() as int) == all);
    r
}

/// The record of the paper `base_id` in the given version, as `entry`
/// describes the paper.
pub fn paper_in(base_id: &str, version: u32, entry: FeedEntry) -> (r: ArxivPaperMetadata)
    ensures
        r@ == paper_in_version(base_id@, version, entry@),
{
    let id = versioned_identifier(base_id, version);
    let fallback = glue("arXiv ", id.as_str(), "");
    assert(fallback@ == "arXiv "@ + id@) by {
        reveal_strlit("");
        assert("arXiv "@ + id@ + ""@ == "arXiv "@ + id@);
    }
    let title = match &entry.title {
        Some(t) => {
            let compacted = compact_text(t.as_str());
            if compacted.as_str().is_empty() {
                fallback
            } else {
                compacted
            }
        },
        None => fallback,
    };
    let summary = match &entry.summary {
        Some(s) => compact_text(s.as_str()),
        None => String::new(),
    };
    let authors = names_of(&entry.authors);
    let published = match entry.published {
        Some(t) => t,
        None => String::new(),
    };
    let updated = match entry.updated {
        Some(t) => t,
        None => String::new(),
    };
    ArxivPaperMetadata {
        arxiv_id: String::from_str(base_id),
        version,
        title,
        authors,
        summary,
        published,
        updated,
        abs_url: glue("https://arxiv.org/abs/", id.as_str(), ""),
        pdf_url: glue("https://arxiv.org/pdf/", id.as_str(), ".pdf"),
    }
}

/// The version that is imported: the one asked for, or else the latest
/// one; it is never below 1.
pub fn version_to_import(requested: Option<u32>, latest: u32) -> (r: u32)
    ensures
        r == effective_version(requested, latest),
        r >= 1,
{
    let version = match requested {
        Some(v) => v,
        None => latest,
    };
    if version < 1 {
        1
    } else {
        version
    }
}

/// The record of the paper `base_id` as `entry` describes it, in the
/// version asked for or else in the latest version that the entry knows of.
pub fn paper_metadata(base_id: &str, requested: Option<u32>, entry: FeedEntry) -> (r:
    ArxivPaperMetadata)
    ensures
        r@ == paper_of_entry(base_id@, requested, entry@),
        r.version >= 1,
{
    let latest = latest_version(base_id, &entry);
    let version = version_to_import(requested, latest);
    paper_in(base_id, version, entry)
}

} // verus!
