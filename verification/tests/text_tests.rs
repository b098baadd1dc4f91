use jobman::text::{
    chars_of, contains_chars, decimal_i32, decimal_u64, first_word_text, is_whitespace_char,
    second_field_text, split_lines, text_eq, trim_text,
};

const SAMPLES: &[&str] = &[
    "",
    " ",
    "CONNECTED",
    "  CONNECTED\n",
    "\t1\r\n",
    "\u{a0}x\u{3000}",
    "a b  c",
    "\u{2003}\u{2003}",
    "héllo wörld ",
    "\u{200b}zero width\u{200b}",
    "line1\nline2\r\nline3",
    "trailing\n",
    "\r\n\r\n",
    "a\rb\nc\r",
    "x:y:z",
    ":",
    "no colon",
    "4.1  IP Address:  192.168.1.5  ",
];

#[test]
fn whitespace_matches_std_for_every_char() {
    for u in 0u32..=0x10FFFF {
        if let Some(c) = char::from_u32(u) {
            assert_eq!(is_whitespace_char(c), c.is_whitespace(), "code point {:#x}", u);
        }
    }
}

#[test]
fn trim_matches_std() {
    for s in SAMPLES {
        assert_eq!(trim_text(s), s.trim(), "input {:?}", s);
    }
}

#[test]
fn trim_examples() {
    assert_eq!(trim_text("  CONNECTED\n"), "CONNECTED");
    assert_eq!(trim_text(" \t "), "");
    assert_eq!(trim_text("\u{a0}1\u{2028}"), "1");
}

#[test]
fn first_word_matches_split_whitespace() {
    for s in SAMPLES {
        assert_eq!(
            first_word_text(s),
            s.split_whitespace().next().map(|w| w.to_string()),
            "input {:?}",
            s
        );
    }
}

#[test]
fn first_word_examples() {
    assert_eq!(first_word_text("1234567 uAh\n"), Some("1234567".to_string()));
    assert_eq!(first_word_text("   \n"), None);
}

#[test]
fn lines_match_std() {
    for s in SAMPLES {
        let expected: Vec<String> = s.lines().map(|l| l.to_string()).collect();
        assert_eq!(split_lines(s), expected, "input {:?}", s);
    }
}

#[test]
fn lines_examples() {
    assert_eq!(split_lines("a\r\nb\n\nc\r"), vec!["a", "b", "", "c\r"]);
    assert!(split_lines("").is_empty());
    assert_eq!(split_lines("one\n"), vec!["one"]);
}

#[test]
fn second_field_matches_split_nth() {
    for s in SAMPLES {
        assert_eq!(
            second_field_text(s),
            s.split(':').nth(1).map(|p| p.to_string()),
            "input {:?}",
            s
        );
    }
}

#[test]
fn second_field_examples() {
    assert_eq!(second_field_text("x:y:z"), Some("y".to_string()));
    assert_eq!(second_field_text("a:"), Some("".to_string()));
    assert_eq!(second_field_text("none"), None);
}

#[test]
fn contains_matches_std() {
    let needles = ["", "4.1  IP", "IP", "b", "zz"];
    for s in SAMPLES {
        for n in needles {
            assert_eq!(
                contains_chars(&chars_of(s), &chars_of(n)),
                s.contains(n),
                "{:?} in {:?}",
                n,
                s
            );
        }
    }
}

#[test]
fn text_eq_examples() {
    assert!(text_eq("CONNECTED", "CONNECTED"));
    assert!(!text_eq("CONNECTED", "CONNECTE"));
    assert!(!text_eq("é", "e"));
    assert!(text_eq("", ""));
}

#[test]
fn decimal_matches_to_string() {
    for n in [0u64, 7, 10, 22, 305, 1000, 65535, u64::MAX] {
        assert_eq!(decimal_u64(n), n.to_string());
    }
    for v in [0i32, -1, 5, -42, 100, i32::MAX, i32::MIN] {
        assert_eq!(decimal_i32(v), v.to_string());
    }
}
