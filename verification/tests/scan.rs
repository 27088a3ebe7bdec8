use docflow::scan::{
    is_not_after, is_pdf_extension, order_keyed, renamed_file_name, scan_result, PdfFile,
};

fn file(name: &str, size: u64) -> PdfFile {
    PdfFile { name: name.to_string(), path: format!("/docs/{}", name), size }
}

fn chars(s: &str) -> Vec<char> {
    s.chars().collect()
}

fn names(files: &[PdfFile]) -> Vec<&str> {
    files.iter().map(|f| f.name.as_str()).collect()
}

#[test]
fn pdf_extension_in_any_case() {
    for ext in ["pdf", "PDF", "Pdf", "pDf"] {
        assert!(is_pdf_extension(ext), "{}", ext);
    }
    for ext in ["", "pd", "pdfx", "xpdf", "txt", "p df", "pdf ", "ｐｄｆ"] {
        assert!(!is_pdf_extension(ext), "{}", ext);
    }
    for ext in ["pdf", "PDF", "pdfa", "Txt", "", "PdF"] {
        assert_eq!(is_pdf_extension(ext), ext.to_lowercase() == "pdf");
    }
}

#[test]
fn order_of_the_dictionary() {
    for (a, b) in [
        ("", ""),
        ("", "a"),
        ("a", ""),
        ("a", "a"),
        ("a", "b"),
        ("b", "a"),
        ("ab", "abc"),
        ("abc", "ab"),
        ("abd", "abc"),
        ("Z", "a"),
        ("é", "z"),
        ("z", "é"),
        ("\u{ffff}", "\u{10000}"),
    ] {
        assert_eq!(is_not_after(&chars(a), &chars(b)), a <= b, "{:?} {:?}", a, b);
    }
}

#[test]
fn files_are_listed_by_name_without_regard_to_case() {
    let found = vec![file("zeta.pdf", 1), file("Alpha.pdf", 2), file("beta.PDF", 3), file("ALPHA2.pdf", 4)];
    let result = scan_result(found, Vec::new());
    assert_eq!(names(&result.files), vec!["Alpha.pdf", "ALPHA2.pdf", "beta.PDF", "zeta.pdf"]);
    assert_eq!(result.total_count, 4);
    assert_eq!(result.error_count, 0);
    assert!(result.errors.is_empty());
    assert_eq!(result.files[0].size, 2);
    assert_eq!(result.files[0].path, "/docs/Alpha.pdf");
}

#[test]
fn files_of_the_same_name_keep_their_order() {
    let found = vec![file("b.pdf", 1), file("A.pdf", 2), file("a.pdf", 3), file("B.pdf", 4), file("a.PDF", 5)];
    let result = scan_result(found, Vec::new());
    let sizes: Vec<u64> = result.files.iter().map(|f| f.size).collect();
    assert_eq!(sizes, vec![2, 3, 5, 1, 4]);
}

#[test]
fn names_are_lowered_as_unicode_does() {
    let found = vec![file("Émile.pdf", 1), file("éa.pdf", 2), file("Zola.pdf", 3)];
    let result = scan_result(found, Vec::new());
    assert_eq!(names(&result.files), vec!["Zola.pdf", "éa.pdf", "Émile.pdf"]);
}

#[test]
fn scan_agrees_with_a_stable_sort() {
    let all = ["q.pdf", "Q.pdf", "a.pdf", "10.pdf", "9.pdf", "B.pdf", "b.pdf", "_x.pdf", "É.pdf", "e.pdf"];
    let found: Vec<PdfFile> = all.iter().enumerate().map(|(i, n)| file(n, i as u64)).collect();
    let mut expected: Vec<(String, u64)> =
        all.iter().enumerate().map(|(i, n)| (n.to_string(), i as u64)).collect();
    expected.sort_by(|a, b| a.0.to_lowercase().cmp(&b.0.to_lowercase()));
    let result = scan_result(found, Vec::new());
    let got: Vec<(String, u64)> = result.files.iter().map(|f| (f.name.clone(), f.size)).collect();
    assert_eq!(got, expected);
}

#[test]
fn errors_are_counted_and_kept() {
    let errors = vec!["Failed to read metadata for /docs/x.pdf: denied".to_string(), "second".to_string()];
    let result = scan_result(vec![file("a.pdf", 1)], errors.clone());
    assert_eq!(result.total_count, 1);
    assert_eq!(result.error_count, 2);
    assert_eq!(result.errors, errors);
    let empty = scan_result(Vec::new(), Vec::new());
    assert_eq!(empty.total_count, 0);
    assert_eq!(empty.error_count, 0);
    assert!(empty.files.is_empty());
}

#[test]
fn keyed_files_go_by_their_keys() {
    let items = vec![
        ("m".to_string(), file("first", 1)),
        ("a".to_string(), file("second", 2)),
        ("m".to_string(), file("third", 3)),
        ("".to_string(), file("fourth", 4)),
    ];
    let ordered = order_keyed(items);
    assert_eq!(names(&ordered), vec!["fourth", "second", "first", "third"]);
    assert!(order_keyed(Vec::new()).is_empty());
}

#[test]
fn renamed_file_keeps_its_extension() {
    assert_eq!(renamed_file_name("report", Some("pdf")), "report.pdf");
    assert_eq!(renamed_file_name("report.v2", Some("PDF")), "report.v2.PDF");
    assert_eq!(renamed_file_name("report", None), "report");
    assert_eq!(renamed_file_name("", Some("")), ".");
    assert_eq!(renamed_file_name("", None), "");
}

#[test]
fn file_metadata_holds_what_is_known() {
    let known = docflow::scan::FileMetadata {
        name: "a.pdf".to_string(),
        path: "/docs/a.pdf".to_string(),
        size: 10,
        modified: Some(1_700_000_000),
    };
    let copy = known.clone();
    assert_eq!(copy.name, "a.pdf");
    assert_eq!(copy.path, "/docs/a.pdf");
    assert_eq!(copy.size, 10);
    assert_eq!(copy.modified, Some(1_700_000_000));
}
