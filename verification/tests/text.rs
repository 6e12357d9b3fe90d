use arcanum::text::{
    chars_of, concat2, concat3, is_white_space, join_from, lines, parse_u64, rsplit_once,
    same_text, slice_to_string, split, split_once, trim,
};

const SAMPLES: [&str; 22] = [
    "",
    " ",
    "a",
    "\n",
    "\r",
    "\r\n",
    "\n\n",
    "a\nb",
    "a\r\nb\r\n",
    "a\r\r\nb",
    "a\rb\n",
    "no feed at the end\r",
    "  padded  ",
    "\t\u{a0}x\u{3000}",
    "\u{2003}\u{2003}",
    "key: value: more",
    ":",
    "a:",
    ":b",
    "/a/b/c",
    "ünï:cödé\n\u{1f980}",
    "\u{85}next\u{2028}line\u{2029}",
];

#[test]
fn white_space_is_that_of_the_standard_library() {
    for n in 0..=0x10ffff_u32 {
        if let Some(c) = char::from_u32(n) {
            assert_eq!(is_white_space(c), c.is_whitespace(), "{n:x}");
        }
    }
}

#[test]
fn trimming_is_that_of_the_standard_library() {
    for s in SAMPLES {
        assert_eq!(trim(s), s.trim());
    }
    assert_eq!(trim("\u{a0}\t a b \r\n"), "a b");
}

#[test]
fn lines_are_those_of_the_standard_library() {
    for s in SAMPLES {
        assert_eq!(lines(s), s.lines().map(str::to_string).collect::<Vec<_>>());
    }
    assert_eq!(lines("a\r\nb\n\nc"), vec!["a", "b", "", "c"]);
}

#[test]
fn splitting_is_that_of_the_standard_library() {
    for s in SAMPLES {
        for c in [':', '/', '\n', '\u{1f980}'] {
            assert_eq!(split_once(s, c), s.split_once(c));
            assert_eq!(rsplit_once(s, c), s.rsplit_once(c));
            assert_eq!(split(s, c), s.split(c).map(str::to_string).collect::<Vec<_>>());
        }
    }
    assert_eq!(split_once("a:b:c", ':'), Some(("a", "b:c")));
    assert_eq!(rsplit_once("a:b:c", ':'), Some(("a:b", "c")));
    assert_eq!(split("a:b:", ':'), vec!["a", "b", ""]);
}

#[test]
fn numbers_are_those_of_the_standard_library() {
    for s in [
        "",
        "+",
        "-",
        "0",
        "00",
        "+0",
        "-0",
        "5000",
        "+5000",
        "++1",
        " 1",
        "1 ",
        "1_000",
        "0x10",
        "12a",
        "\u{661}",
        "18446744073709551615",
        "18446744073709551616",
        "00018446744073709551615",
        "99999999999999999999999",
    ] {
        assert_eq!(parse_u64(s), s.parse::<u64>().ok(), "{s}");
    }
    assert_eq!(parse_u64("18446744073709551615"), Some(u64::MAX));
    assert_eq!(parse_u64("18446744073709551616"), None);
}

#[test]
fn texts_are_put_together() {
    assert_eq!(concat2("ab", "c"), "abc");
    assert_eq!(concat3("a", "", "\u{1f980}"), "a\u{1f980}");
    assert_eq!(chars_of("a\u{1f980}"), vec!['a', '\u{1f980}']);
    assert!(same_text("skill", "skill"));
    assert!(!same_text("skill", "skills"));
    assert!(!same_text("skill", "skiLl"));
    assert_eq!(slice_to_string(&vec!['a', 'b', 'c', 'd'], 1, 3), "bc");
    let parts = vec!["a".to_string(), "b".to_string(), "c".to_string()];
    assert_eq!(join_from(&parts, 0, ", "), "a, b, c");
    assert_eq!(join_from(&parts, 2, ", "), "c");
    assert_eq!(join_from(&parts, 3, ", "), "");
}
