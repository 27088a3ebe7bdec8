use docflow::number::{decimal_chars, parse_number};
use docflow::spacing::{compact_text, join_words, split_words, trim};
use docflow::text::{
    chars_of, has_prefix, has_suffix, is_digit, is_letter, is_whitespace, lowered_chars,
    same_chars, slice_of, text_of, to_lower,
};

fn chars(s: &str) -> Vec<char> {
    s.chars().collect()
}

#[test]
fn white_space_is_what_std_calls_so() {
    let mut c = '\0';
    loop {
        assert_eq!(is_whitespace(c), c.is_whitespace(), "{:?}", c);
        if c == char::MAX {
            break;
        }
        c = char::from_u32(c as u32 + 1).unwrap_or('\u{E000}');
    }
}

#[test]
fn digits_and_letters_are_ascii() {
    for c in ['0', '5', '9'] {
        assert!(is_digit(c));
    }
    for c in ['/', ':', 'a', '٣', '９'] {
        assert!(!is_digit(c));
    }
    for c in ['a', 'z', 'A', 'Z', 'm'] {
        assert!(is_letter(c));
    }
    for c in ['@', '[', '`', '{', '0', 'é', 'Ω'] {
        assert!(!is_letter(c));
    }
}

#[test]
fn lower_case_of_ascii_only() {
    assert_eq!(to_lower('A'), 'a');
    assert_eq!(to_lower('Z'), 'z');
    assert_eq!(to_lower('q'), 'q');
    assert_eq!(to_lower('É'), 'É');
    assert_eq!(to_lower('['), '[');
    assert_eq!(lowered_chars(&chars("Hep-TH/99")), chars("hep-th/99"));
}

#[test]
fn strings_and_characters_convert_both_ways() {
    for s in ["", "abc", "héllo 世界", "\u{1F600}x"] {
        assert_eq!(chars_of(s), chars(s));
        assert_eq!(text_of(&chars(s)), s);
    }
}

#[test]
fn slices_prefixes_and_suffixes() {
    let v = chars("abcdef");
    assert_eq!(slice_of(&v, 1, 4), chars("bcd"));
    assert_eq!(slice_of(&v, 2, 2), chars(""));
    assert!(has_prefix(&v, &chars("abc")));
    assert!(has_prefix(&v, &chars("")));
    assert!(!has_prefix(&v, &chars("abd")));
    assert!(!has_prefix(&v, &chars("abcdefg")));
    assert!(has_suffix(&v, &chars("def")));
    assert!(!has_suffix(&v, &chars("de")));
    assert!(!has_suffix(&v, &chars("xabcdef")));
    assert!(same_chars(&v, &chars("abcdef")));
    assert!(!same_chars(&v, &chars("abcdeg")));
    assert!(!same_chars(&v, &chars("abcde")));
}

#[test]
fn trim_takes_white_space_from_both_ends() {
    assert_eq!(trim(&chars("  a b \n")), chars("a b"));
    assert_eq!(trim(&chars("a")), chars("a"));
    assert_eq!(trim(&chars(" \t\r\n")), chars(""));
    assert_eq!(trim(&chars("")), chars(""));
    assert_eq!(trim(&chars("\u{00A0}x\u{2003}")), chars("x"));
    for s in ["  a b \n", "", " ", "x", "\u{3000}é \u{85}"] {
        assert_eq!(text_of(&trim(&chars(s))), s.trim());
    }
}

#[test]
fn words_are_split_at_white_space() {
    assert_eq!(split_words(&chars(" a  bc\td ")), vec![chars("a"), chars("bc"), chars("d")]);
    assert_eq!(split_words(&chars("")), Vec::<Vec<char>>::new());
    assert_eq!(split_words(&chars(" \n ")), Vec::<Vec<char>>::new());
    assert_eq!(split_words(&chars("one")), vec![chars("one")]);
}

#[test]
fn words_are_joined_with_the_separator() {
    assert_eq!(join_words(&vec![chars("a"), chars("bc"), chars("d")], '_'), chars("a_bc_d"));
    assert_eq!(join_words(&vec![chars("a")], '_'), chars("a"));
    assert_eq!(join_words(&Vec::new(), '_'), chars(""));
    assert_eq!(join_words(&vec![chars(""), chars("")], '-'), chars("-"));
}

#[test]
fn compact_text_makes_one_blank_of_each_run() {
    assert_eq!(compact_text("  Attention   Is\nAll \t You  Need "), "Attention Is All You Need");
    assert_eq!(compact_text(""), "");
    assert_eq!(compact_text(" \n\t "), "");
    assert_eq!(compact_text("one"), "one");
    assert_eq!(compact_text("a\u{00A0}b\u{2028}c"), "a b c");
    for s in ["  x  y ", "no change", "\n\nlines\r\nof text\n"] {
        assert_eq!(compact_text(s), s.split_whitespace().collect::<Vec<_>>().join(" "));
    }
}

#[test]
fn compact_text_is_settled() {
    for s in ["  a   b ", "x", "", "multi\n line \t text"] {
        let once = compact_text(s);
        assert_eq!(compact_text(&once), once);
    }
}

#[test]
fn decimal_notation() {
    assert_eq!(text_of(&decimal_chars(0)), "0");
    assert_eq!(text_of(&decimal_chars(7)), "7");
    assert_eq!(text_of(&decimal_chars(10)), "10");
    assert_eq!(text_of(&decimal_chars(4294967295)), "4294967295");
    assert_eq!(text_of(&decimal_chars(u64::MAX)), "18446744073709551615");
    for n in [1u64, 9, 99, 100, 1700000000, 123456789012] {
        assert_eq!(text_of(&decimal_chars(n)), n.to_string());
    }
}

#[test]
fn numbers_are_read_from_digits() {
    assert_eq!(parse_number(&chars("0")), Some(0));
    assert_eq!(parse_number(&chars("42")), Some(42));
    assert_eq!(parse_number(&chars("0042")), Some(42));
    assert_eq!(parse_number(&chars("4294967295")), Some(u32::MAX));
    assert_eq!(parse_number(&chars("4294967296")), None);
    assert_eq!(parse_number(&chars("00000000004294967295")), Some(u32::MAX));
    assert_eq!(parse_number(&chars("")), None);
    assert_eq!(parse_number(&chars("12a")), None);
    assert_eq!(parse_number(&chars("+12")), None);
    assert_eq!(parse_number(&chars("-1")), None);
    assert_eq!(parse_number(&chars("１２")), None);
}

#[test]
fn greeting_names_its_guest() {
    assert_eq!(docflow::greeting::greet("Ada"), "Hello, Ada! You've been greeted from Rust!");
    assert_eq!(docflow::greeting::greet(""), "Hello, ! You've been greeted from Rust!");
}
