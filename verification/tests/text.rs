//! Text operations, held against those of the standard library.

use cordyceps::text;

const SAMPLES: [&str; 14] = [
    "",
    " ",
    "a",
    " a ",
    "\t a b\u{a0}",
    "\u{2003}x\u{3000}y\u{85}",
    "two  words",
    "\nline\r\n",
    "ÄÖÜ ABC xyz",
    "İstanbul-_-",
    "__a_b__",
    "--a-b--",
    "a\u{200b}b",
    "  \u{1680}\u{202f}\u{205f}  ",
];

#[test]
fn white_space_is_that_of_unicode() {
    for n in 0..=0x10ffff_u32 {
        if let Some(c) = char::from_u32(n) {
            assert_eq!(text::is_whitespace(c), c.is_whitespace(), "{n:x}");
        }
    }
}

#[test]
fn trimming_and_splitting_match() {
    for s in SAMPLES {
        assert_eq!(text::trim(s), s.trim());
        assert_eq!(text::trim(&text::trim(s)), text::trim(s));
        assert_eq!(text::is_blank(s), s.trim().is_empty());
        let words: Vec<String> = s.split_whitespace().map(str::to_string).collect();
        assert_eq!(text::split_whitespace(s), words);
        assert_eq!(text::split_whitespace(&text::join(&words, " ")), words);
        let once = s
            .split_once(char::is_whitespace)
            .map(|(a, b)| (a.to_string(), b.to_string()));
        assert_eq!(text::split_once_whitespace(s), once);
    }
}

#[test]
fn changing_characters_matches() {
    for s in SAMPLES {
        assert_eq!(text::to_ascii_lowercase(s), s.to_ascii_lowercase());
        assert_eq!(text::replace(s, '_', "-"), s.replace('_', "-"));
        assert_eq!(text::replace(s, 'a', "xyz"), s.replace('a', "xyz"));
        assert_eq!(text::replace(s, 'a', ""), s.replace('a', ""));
    }
}

#[test]
fn comparing_matches() {
    for a in SAMPLES {
        for b in SAMPLES {
            assert_eq!(text::equal(a, b), a == b);
            assert_eq!(text::ends_with(a, b), a.ends_with(b));
        }
        assert!(text::ends_with(a, ""));
    }
    assert!(text::ends_with("src/lib.rs", ".rs"));
    assert!(!text::ends_with("rs", ".rs"));
}

#[test]
fn joining_puts_the_separator_between() {
    let parts = vec!["a".to_string(), "".to_string(), "c".to_string()];
    assert_eq!(text::join(&parts, ", "), "a, , c");
    assert_eq!(text::join(&vec![], ", "), "");
    assert_eq!(text::join(&vec!["x".to_string()], ", "), "x");
}

#[test]
fn decimal_matches() {
    for n in [0, 7, 9, 10, 25, 99, 100, 256_000, u64::MAX] {
        assert_eq!(text::decimal_of(n), n.to_string());
    }
}

#[test]
fn reading_numbers_matches() {
    for s in [
        "", "0", "7", "+7", "-7", "+", "007", "256000", "4294967295", "4294967296", " 1", "1 ",
        "1_000", "0x10", "99999999999999999999999", "٣", "00000000000000000000000001",
    ] {
        assert_eq!(text::parse_u32(s), s.parse::<u32>().ok(), "{s}");
    }
    for n in [0, 1, 10, 256_000, u32::MAX] {
        assert_eq!(text::parse_u32(&text::decimal_of(u64::from(n))), Some(n));
    }
}

#[test]
fn characters_go_in_and_out() {
    let chars = text::chars_of("é→b");
    assert_eq!(chars, vec!['é', '→', 'b']);
    assert_eq!(text::string_of(&chars, 1, 3), "→b");
    assert_eq!(text::string_of(&chars, 2, 2), "");
}
