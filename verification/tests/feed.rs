use docflow::text::glue;
use docflow::feed::{
    latest_version, paper_in, paper_metadata, resolve_version, version_in,
    version_to_import, versioned_identifier, ArxivPaperMetadata, FeedEntry,
};

fn entry(id: Option<&str>, links: &[Option<&str>]) -> FeedEntry {
    FeedEntry {
        id: id.map(String::from),
        title: None,
        summary: None,
        published: None,
        updated: None,
        authors: Vec::new(),
        links: links.iter().map(|l| l.map(String::from)).collect(),
    }
}

#[test]
fn identity_takes_priority_over_links() {
    let e = entry(
        Some("http://arxiv.org/abs/2301.12345v3"),
        &[Some("http://arxiv.org/abs/2301.12345v2"), Some("http://arxiv.org/pdf/2301.12345v2")],
    );
    assert_eq!(latest_version("2301.12345", &e), 3);
    assert_eq!(resolve_version(Some(3), &vec![Some(2), Some(2)]), 3);
}

#[test]
fn no_version_marker_anywhere_yields_one() {
    let e = entry(
        Some("http://arxiv.org/abs/2301.12345"),
        &[Some("http://arxiv.org/abs/2301.12345"), None, Some("https://doi.org/10.1000/x")],
    );
    assert_eq!(latest_version("2301.12345", &e), 1);
    assert_eq!(latest_version("2301.12345", &entry(None, &[])), 1);
    assert_eq!(resolve_version(None, &vec![]), 1);
    assert_eq!(resolve_version(None, &vec![None, None]), 1);
}

#[test]
fn first_link_with_a_version_counts() {
    let e = entry(
        Some("http://arxiv.org/abs/2301.12345"),
        &[
            None,
            Some("http://arxiv.org/abs/2301.12345"),
            Some("http://arxiv.org/abs/2301.12345v4"),
            Some("http://arxiv.org/pdf/2301.12345v9"),
        ],
    );
    assert_eq!(latest_version("2301.12345", &e), 4);
    assert_eq!(resolve_version(None, &vec![None, Some(4), Some(9)]), 4);
}

#[test]
fn version_of_another_paper_does_not_count() {
    let e = entry(
        Some("http://arxiv.org/abs/2301.99999v8"),
        &[Some("http://arxiv.org/abs/2301.00001v5"), Some("http://arxiv.org/abs/2301.12345v2")],
    );
    assert_eq!(latest_version("2301.12345", &e), 2);
    assert_eq!(version_in("2301.12345", "http://arxiv.org/abs/2301.99999v8"), None);
    assert_eq!(version_in("2301.12345", "2301.12345v8"), Some(8));
    assert_eq!(version_in("2301.12345", "2301.12345"), None);
    assert_eq!(version_in("hep-th/9901001", "https://arxiv.org/abs/HEP-TH/9901001v2"), Some(2));
    assert_eq!(version_in("2301.12345", "not an identifier"), None);
}

#[test]
fn version_is_never_below_one() {
    assert_eq!(resolve_version(Some(0), &vec![Some(5)]), 1);
    assert_eq!(resolve_version(None, &vec![Some(0), Some(5)]), 1);
    let e = entry(Some("http://arxiv.org/abs/2301.12345v0"), &[Some("http://arxiv.org/abs/2301.12345v4")]);
    assert_eq!(version_in("2301.12345", "http://arxiv.org/abs/2301.12345v0"), None);
    assert_eq!(latest_version("2301.12345", &e), 4);
    let requested_zero = paper_metadata("2301.12345", Some(0), entry(None, &[]));
    assert_eq!(requested_zero.version, 1);
    assert_eq!(requested_zero.abs_url, "https://arxiv.org/abs/2301.12345v1");
}

#[test]
fn identity_with_version_one_ends_the_search() {
    let e = entry(
        Some("http://arxiv.org/abs/2301.12345v1"),
        &[Some("http://arxiv.org/abs/2301.12345v5")],
    );
    assert_eq!(latest_version("2301.12345", &e), 1);
    assert_eq!(resolve_version(Some(1), &vec![Some(5)]), 1);
}

#[test]
fn requested_version_wins() {
    assert_eq!(version_to_import(Some(2), 7), 2);
    assert_eq!(version_to_import(Some(0), 7), 1);
    assert_eq!(version_to_import(Some(1), 7), 1);
    assert_eq!(version_to_import(None, 7), 7);
    assert_eq!(version_to_import(None, 0), 1);
}

#[test]
fn versioned_identifier_and_glue() {
    assert_eq!(versioned_identifier("1706.03762", 7), "1706.03762v7");
    assert_eq!(versioned_identifier("hep-th/9901001", 4294967295), "hep-th/9901001v4294967295");
    assert_eq!(versioned_identifier("", 0), "v0");
    assert_eq!(glue("a", "b", "c"), "abc");
    assert_eq!(glue("", "é", ""), "é");
}

fn full_entry() -> FeedEntry {
    FeedEntry {
        id: Some("http://arxiv.org/abs/1706.03762v7".to_string()),
        title: Some("Attention Is\n  All You Need".to_string()),
        summary: Some("  The dominant sequence transduction\nmodels ...  ".to_string()),
        published: Some("2017-06-12T17:57:34Z".to_string()),
        updated: Some("2023-08-02T00:41:18Z".to_string()),
        authors: vec![
            Some("Ashish  Vaswani".to_string()),
            None,
            Some("   ".to_string()),
            Some(" Noam Shazeer\n".to_string()),
        ],
        links: vec![Some("http://arxiv.org/pdf/1706.03762v7".to_string())],
    }
}

fn check_attention(paper: &ArxivPaperMetadata, version: u32) {
    assert_eq!(paper.arxiv_id, "1706.03762");
    assert_eq!(paper.version, version);
    assert_eq!(paper.title, "Attention Is All You Need");
    assert_eq!(paper.authors, vec!["Ashish Vaswani".to_string(), "Noam Shazeer".to_string()]);
    assert_eq!(paper.summary, "The dominant sequence transduction models ...");
    assert_eq!(paper.published, "2017-06-12T17:57:34Z");
    assert_eq!(paper.updated, "2023-08-02T00:41:18Z");
    assert_eq!(paper.abs_url, format!("https://arxiv.org/abs/1706.03762v{}", version));
    assert_eq!(paper.pdf_url, format!("https://arxiv.org/pdf/1706.03762v{}.pdf", version));
}

#[test]
fn record_is_made_from_the_entry() {
    check_attention(&paper_metadata("1706.03762", None, full_entry()), 7);
    check_attention(&paper_metadata("1706.03762", Some(3), full_entry()), 3);
    check_attention(&paper_in("1706.03762", 5, full_entry()), 5);
}

#[test]
fn record_copy_says_the_same() {
    let paper = paper_metadata("1706.03762", None, full_entry());
    check_attention(&paper.copy(), 7);
}

#[test]
fn absent_fields_get_their_defaults() {
    let paper = paper_metadata("hep-th/9901001", None, entry(None, &[]));
    assert_eq!(paper.arxiv_id, "hep-th/9901001");
    assert_eq!(paper.version, 1);
    assert_eq!(paper.title, "arXiv hep-th/9901001v1");
    assert!(paper.authors.is_empty());
    assert_eq!(paper.summary, "");
    assert_eq!(paper.published, "");
    assert_eq!(paper.updated, "");
    assert_eq!(paper.abs_url, "https://arxiv.org/abs/hep-th/9901001v1");
    assert_eq!(paper.pdf_url, "https://arxiv.org/pdf/hep-th/9901001v1.pdf");
}

#[test]
fn blank_title_gets_the_fallback() {
    let mut e = entry(None, &[]);
    e.title = Some(" \n ".to_string());
    let paper = paper_metadata("2301.12345", Some(2), e);
    assert_eq!(paper.title, "arXiv 2301.12345v2");
}

#[test]
fn addresses_are_made_not_copied() {
    let e = entry(
        Some("https://mirror.example/abs/2301.12345v9"),
        &[Some("https://mirror.example/pdf/2301.12345v9")],
    );
    let paper = paper_metadata("2301.12345", None, e);
    assert_eq!(paper.version, 1);
    assert_eq!(paper.abs_url, "https://arxiv.org/abs/2301.12345v1");
    assert_eq!(paper.pdf_url, "https://arxiv.org/pdf/2301.12345v1.pdf");
}

#[test]
fn made_addresses_read_back() {
    for (base, version) in [("1706.03762", 7u32), ("hep-th/9901001", 1), ("math.gt/0309136", 4294967295), ("0704.0001", 12)] {
        let paper = paper_in(base, version, entry(None, &[]));
        let said = Some((base.to_string(), Some(version)));
        assert_eq!(docflow::parse_plain_arxiv_id(&versioned_identifier(base, version)), said);
        assert_eq!(docflow::parse_arxiv_input(&paper.abs_url), said);
        assert_eq!(docflow::parse_arxiv_input(&paper.pdf_url), said);
        assert_eq!(version_in(base, &paper.abs_url), Some(version));
    }
}
