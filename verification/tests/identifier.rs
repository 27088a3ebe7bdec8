use docflow::identifier::{
    identifier_with_url, parse_arxiv_input, parse_plain_arxiv_id, UrlParts,
};

fn id(base: &str, version: Option<u32>) -> Option<(String, Option<u32>)> {
    Some((base.to_string(), version))
}

#[test]
fn modern_identifier_alone() {
    assert_eq!(parse_plain_arxiv_id("2301.12345"), id("2301.12345", None));
    assert_eq!(parse_plain_arxiv_id("1706.0376"), id("1706.0376", None));
}

#[test]
fn modern_identifier_with_version() {
    assert_eq!(parse_plain_arxiv_id("2301.12345v2"), id("2301.12345", Some(2)));
    assert_eq!(parse_plain_arxiv_id("1706.03762v17"), id("1706.03762", Some(17)));
}

#[test]
fn legacy_identifier_alone_and_with_version() {
    assert_eq!(parse_plain_arxiv_id("hep-th/9901001"), id("hep-th/9901001", None));
    assert_eq!(parse_plain_arxiv_id("math.GT/0309136v1"), id("math.gt/0309136", Some(1)));
    assert_eq!(parse_plain_arxiv_id("a/1234567"), id("a/1234567", None));
}

#[test]
fn identifier_is_lowered() {
    assert_eq!(parse_plain_arxiv_id("Hep-Th/9901001v3"), id("hep-th/9901001", Some(3)));
    assert_eq!(parse_arxiv_input("HEP-TH/9901001"), id("hep-th/9901001", None));
}

#[test]
fn white_space_at_the_ends_is_dropped() {
    assert_eq!(parse_plain_arxiv_id("  2301.12345v2\n"), id("2301.12345", Some(2)));
    assert_eq!(parse_arxiv_input("\t hep-th/9901001 \u{3000}"), id("hep-th/9901001", None));
}

#[test]
fn blank_input_says_nothing() {
    assert_eq!(parse_arxiv_input(""), None);
    assert_eq!(parse_arxiv_input("   \n\t"), None);
    assert_eq!(parse_plain_arxiv_id(""), None);
}

#[test]
fn version_zero_is_no_version() {
    assert_eq!(parse_plain_arxiv_id("2301.12345v0"), None);
    assert_eq!(parse_plain_arxiv_id("2301.12345v000"), None);
    assert_eq!(parse_plain_arxiv_id("hep-th/9901001v0"), None);
    assert_eq!(parse_arxiv_input("2301.12345v0"), None);
    assert_eq!(parse_arxiv_input("https://arxiv.org/abs/2301.12345v0"), None);
    assert_eq!(parse_arxiv_input("https://arxiv.org/pdf/2301.12345v0.pdf"), None);
    assert_eq!(parse_plain_arxiv_id("2301.12345v1"), id("2301.12345", Some(1)));
    assert_eq!(parse_plain_arxiv_id("2301.12345v007"), id("2301.12345", Some(7)));
}

#[test]
fn version_too_large_is_no_version() {
    assert_eq!(parse_plain_arxiv_id("2301.12345v4294967295"), id("2301.12345", Some(4294967295)));
    assert_eq!(parse_plain_arxiv_id("2301.12345v4294967296"), None);
    assert_eq!(parse_plain_arxiv_id("2301.12345v99999999999999999999999999"), None);
    assert_eq!(parse_arxiv_input("https://arxiv.org/abs/2301.12345v4294967296"), None);
}

#[test]
fn malformed_identifiers_say_nothing() {
    for text in [
        "2301.1234567",
        "2301.123",
        "230.12345",
        "23011.2345",
        "2301-12345",
        "2301.12345v",
        "2301.12345V2",
        "2301.12345v2a",
        "2301.12345 v2",
        "x2301.12345",
        "hep-th/990100",
        "hep-th/99010012",
        "/9901001",
        "hep_th/9901001",
        "hep th/9901001",
        "hep-th/9901001/",
        "hep-th//9901001",
        "h3p/9901001",
        "٢٣٠١.١٢٣٤٥",
        "v2",
        "arxiv.org/abs/2301.12345",
    ] {
        assert_eq!(parse_plain_arxiv_id(text), None, "{}", text);
        assert_eq!(parse_arxiv_input(text), None, "{}", text);
    }
}

#[test]
fn same_identifier_in_every_form() {
    for (bare, base, version) in [
        ("2301.12345", "2301.12345", None),
        ("2301.12345v4", "2301.12345", Some(4)),
        ("0704.0001v2", "0704.0001", Some(2)),
        ("hep-th/9901001", "hep-th/9901001", None),
        ("Math.GT/0309136v12", "math.gt/0309136", Some(12)),
    ] {
        let said = id(base, version);
        assert_eq!(parse_arxiv_input(bare), said);
        for host in ["arxiv.org", "www.arxiv.org", "ARXIV.org", "WWW.ArXiv.Org"] {
            for scheme in ["https", "http"] {
                let abs = format!("{}://{}/abs/{}", scheme, host, bare);
                let pdf = format!("{}://{}/pdf/{}", scheme, host, bare);
                let pdf_file = format!("{}://{}/pdf/{}.pdf", scheme, host, bare);
                assert_eq!(parse_arxiv_input(&abs), said, "{}", abs);
                assert_eq!(parse_arxiv_input(&pdf), said, "{}", pdf);
                assert_eq!(parse_arxiv_input(&pdf_file), said, "{}", pdf_file);
            }
        }
    }
}

#[test]
fn address_with_query_fragment_or_last_slash() {
    let said = id("2301.12345", Some(2));
    assert_eq!(parse_arxiv_input("https://arxiv.org/abs/2301.12345v2?context=cs"), said);
    assert_eq!(parse_arxiv_input("https://arxiv.org/abs/2301.12345v2#top"), said);
    assert_eq!(parse_arxiv_input("https://arxiv.org/abs/2301.12345v2/"), said);
    assert_eq!(parse_arxiv_input("  https://arxiv.org/pdf/2301.12345v2.pdf  "), said);
}

#[test]
fn other_hosts_say_nothing() {
    for text in [
        "https://example.org/abs/2301.12345",
        "https://export.arxiv.org/abs/2301.12345",
        "https://arxiv.org.evil.example/abs/2301.12345",
        "https://xarxiv.org/abs/2301.12345",
        "https://arxiv.com/pdf/2301.12345.pdf",
        "mailto:2301.12345",
        "data:text/plain,2301.12345",
        "file:///abs/2301.12345",
    ] {
        assert_eq!(parse_arxiv_input(text), None, "{}", text);
    }
}

#[test]
fn other_paths_say_nothing() {
    for text in [
        "https://arxiv.org/",
        "https://arxiv.org",
        "https://arxiv.org/list/2301.12345",
        "https://arxiv.org/abs",
        "https://arxiv.org/abs/",
        "https://arxiv.org/abstract/2301.12345",
        "https://arxiv.org/ABS/2301.12345",
        "https://arxiv.org/abs/2301.12345/extra",
        "https://arxiv.org/abs/extra/2301.12345",
        "https://arxiv.org/abs/2301.12345.pdf",
        "https://arxiv.org/pdf/2301.12345.pdf.pdf",
        "https://arxiv.org/pdf/2301.12345.PDF",
    ] {
        assert_eq!(parse_arxiv_input(text), None, "{}", text);
    }
}

#[test]
fn legacy_identifier_in_an_address() {
    assert_eq!(
        parse_arxiv_input("https://arxiv.org/abs/hep-th/9901001v2"),
        id("hep-th/9901001", Some(2))
    );
    assert_eq!(
        parse_arxiv_input("http://www.arxiv.org/pdf/hep-th/9901001.pdf"),
        id("hep-th/9901001", None)
    );
}

#[test]
fn parts_of_an_address_decide() {
    let parts = |host: Option<&str>, path: &str| {
        Some(UrlParts { host: host.map(String::from), path: path.to_string() })
    };
    let said = id("2301.12345", Some(3));
    assert_eq!(identifier_with_url("anything", parts(Some("arxiv.org"), "/abs/2301.12345v3")), said);
    assert_eq!(identifier_with_url("x", parts(Some("WWW.ARXIV.ORG"), "///pdf/2301.12345v3.pdf//")), said);
    assert_eq!(identifier_with_url("x", parts(Some("arxiv.org"), "/pdf/ 2301.12345v3 ")), said);
    assert_eq!(identifier_with_url("x", parts(None, "/abs/2301.12345v3")), None);
    assert_eq!(identifier_with_url("x", parts(Some("arxiv.net"), "/abs/2301.12345v3")), None);
    assert_eq!(identifier_with_url("x", parts(Some("arxiv.org"), "/html/2301.12345v3")), None);
    assert_eq!(identifier_with_url("  ", parts(Some("arxiv.org"), "/abs/2301.12345v3")), None);
    assert_eq!(identifier_with_url(" 2301.12345v3 ", None), said);
    assert_eq!(identifier_with_url("nothing", None), None);
}

/// The grammar as one pattern, read with the `regex` crate; a version mark
/// must denote a version of 1 or more that fits in 32 bits.
fn by_pattern(value: &str) -> Option<(String, Option<u32>)> {
    let pattern = regex::Regex::new(
        r"^(?P<base>(?:[A-Za-z\.\-]+/[0-9]{7}|[0-9]{4}\.[0-9]{4,5}))(?:v(?P<version>[0-9]+))?$",
    )
    .unwrap();
    let captures = pattern.captures(value.trim())?;
    let base = captures.name("base")?.as_str().to_lowercase();
    match captures.name("version") {
        None => Some((base, None)),
        Some(digits) => match digits.as_str().parse::<u32>() {
            Ok(version) if version >= 1 => Some((base, Some(version))),
            _ => None,
        },
    }
}

#[test]
fn grammar_agrees_with_its_pattern() {
    let heads = ["", "a", "hep-th", "Math.GT", "x-.", "h3p", "hep_th", "é", "1234", "12345", "123", "v", "/"];
    let joints = ["/", ".", "", "//", "-", " "];
    let tails = [
        "", "1", "1234", "12345", "123456", "1234567", "12345678", "1234v1", "12345v12", "1234567v3",
        "1234567v", "1234567V3", "1234v", "12345v0", "12345v00", "12345v01", "12345v4294967295",
        "12345v4294967296", "1234567v0",
        "1234567v00000000000000000001", "12345vv1", "12345v1v2", "12345v1 ", "12345\n",
        "1234５", "12345v１",
    ];
    let mut some = 0;
    for head in heads {
        for joint in joints {
            for tail in tails {
                for pad in ["", " ", "\t\n"] {
                    let text = format!("{}{}{}{}{}", pad, head, joint, tail, pad);
                    let expected = by_pattern(&text);
                    assert_eq!(parse_plain_arxiv_id(&text), expected, "{:?}", text);
                    if expected.is_some() {
                        some += 1;
                    }
                }
            }
        }
    }
    assert!(some > 50);
}

#[test]
fn hosts_are_compared_as_lower_case_does() {
    let path = "/abs/2301.12345";
    for host in ["arxiv.org", "ARXIV.ORG", "www.arxiv.org", "Www.Arxiv.Org", "arxiv.org.", "arxiv", "ａrxiv.org", "arxiv.orG", "ar\u{212A}iv.org"] {
        let parts = Some(UrlParts { host: Some(host.to_string()), path: path.to_string() });
        let lowered = host.to_lowercase();
        let expected = lowered == "arxiv.org" || lowered == "www.arxiv.org";
        assert_eq!(identifier_with_url("x", parts).is_some(), expected, "{:?}", host);
    }
}

#[test]
fn address_reader_resolves_dot_segments() {
    assert_eq!(parse_arxiv_input("../1234567"), id("../1234567", None));
    assert_eq!(parse_arxiv_input("https://arxiv.org/abs/../1234567"), None);
    assert_eq!(parse_arxiv_input("./1234567"), id("./1234567", None));
    assert_eq!(parse_arxiv_input("https://arxiv.org/abs/./1234567"), None);
    let parts = Some(UrlParts { host: Some("arxiv.org".to_string()), path: "/abs/../1234567".to_string() });
    assert_eq!(identifier_with_url("x", parts), id("../1234567", None));
}
