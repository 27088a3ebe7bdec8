use docflow::filename::{
    sanitize_title_for_filename, stem_of_title, stem_with, title_or_fallback,
};

#[test]
fn title_becomes_words_joined_by_underscores() {
    assert_eq!(sanitize_title_for_filename("Attention Is All You Need"), "Attention_Is_All_You_Need");
    assert_eq!(sanitize_title_for_filename("  spaced \n out\ttitle "), "spaced_out_title");
    assert_eq!(sanitize_title_for_filename("single"), "single");
}

#[test]
fn separators_part_words() {
    assert_eq!(sanitize_title_for_filename("TCP/IP over a\\b"), "TCP_IP_over_a_b");
    assert_eq!(sanitize_title_for_filename("/leading and trailing\\"), "leading_and_trailing");
    assert_eq!(stem_of_title("a / b"), "a_b");
    assert_eq!(stem_of_title("a//b"), "a_b");
}

#[test]
fn cleaner_takes_out_what_is_unfit_for_names() {
    assert_eq!(sanitize_title_for_filename("What is 2*2? A: <four>"), "What_is_22_A_four");
    assert_eq!(sanitize_title_for_filename("a|b\"c"), "abc");
    assert_eq!(stem_of_title("a:b"), "a:b");
    assert_eq!(sanitize_title_for_filename("a:b"), "ab");
    assert_eq!(sanitize_title_for_filename("bell\u{7}in\u{1b}side"), "bellinside");
}

#[test]
fn empty_names_fall_back_to_paper() {
    assert_eq!(sanitize_title_for_filename(""), "paper");
    assert_eq!(sanitize_title_for_filename("   "), "paper");
    assert_eq!(sanitize_title_for_filename("???"), "paper");
    assert_eq!(sanitize_title_for_filename("/ \\ /"), "paper");
    assert_eq!(sanitize_title_for_filename(":*?\"<>|"), "paper");
    assert_eq!(sanitize_title_for_filename(".."), "paper");
    assert_eq!(title_or_fallback(String::new()), "paper");
    assert_eq!(title_or_fallback("x".to_string()), "x");
    assert_eq!(title_or_fallback("paper".to_string()), "paper");
}

#[test]
fn stem_is_cut_to_96_characters() {
    let long = "word ".repeat(40);
    let stem = stem_of_title(&long);
    assert_eq!(stem.chars().count(), 96);
    assert_eq!(stem, "word_".repeat(19) + "w");
    let name = sanitize_title_for_filename(&long);
    assert_eq!(name, stem);
    let exact = "a".repeat(96);
    assert_eq!(stem_of_title(&exact), exact);
    let over = "a".repeat(97);
    assert_eq!(stem_of_title(&over), exact);
}

#[test]
fn characters_are_counted_not_bytes() {
    let long = "é".repeat(120);
    let stem = stem_of_title(&long);
    assert_eq!(stem.chars().count(), 96);
    assert_eq!(stem.len(), 192);
    assert_eq!(sanitize_title_for_filename(&long), "é".repeat(96));
}

#[test]
fn sanitized_title_obeys_its_bounds() {
    let titles = [
        "Attention Is All You Need",
        "",
        "//",
        "a/b\\c d",
        "  ε-δ proofs: a <survey>  ",
        "x".repeat(500).as_str().to_string().leak(),
        "tab\tseparated\u{3000}words",
        "con",
        "trailing dots...",
    ];
    for title in titles {
        let name = sanitize_title_for_filename(title);
        assert!(!name.is_empty(), "{:?}", title);
        assert!(name.chars().count() <= 96, "{:?}", title);
        assert!(!name.contains('/') && !name.contains('\\'), "{:?}", title);
        assert!(!name.chars().any(char::is_whitespace), "{:?}", title);
        assert_eq!(stem_of_title(&name), name, "{:?}", title);
        assert_eq!(sanitize_title_for_filename(&name), name, "{:?}", title);
    }
}

#[test]
fn file_stem_joins_identifier_version_and_name() {
    assert_eq!(stem_with("1706.03762", 7, "Attention"), "1706.03762v7_Attention");
    assert_eq!(stem_with("hep-th/9901001", 12, "paper"), "hep-th_9901001v12_paper");
    assert_eq!(stem_with("a/b/c", 0, ""), "a_b_cv0_");
}

#[test]
fn fit_names_come_back_as_they_are() {
    for stem in [
        "Attention_Is_All_You_Need",
        "paper",
        "a",
        "ab",
        "Rust",
        "GANs",
        "Vol.2",
        "console",
        "con_fusion",
        "comic.book",
        "lpt",
        "x".repeat(96).as_str(),
        "é".repeat(96).as_str(),
        "semi;colon's+plus~tilde",
    ] {
        assert_eq!(sanitize_title_for_filename(stem), stem, "{:?}", stem);
    }
    assert_eq!(sanitize_title_for_filename("An <odd>: title?"), "An_odd_title");
    assert_eq!(sanitize_title_for_filename("a\u{9f}b|c"), "abc");
}
