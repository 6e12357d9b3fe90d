use arcanum::mcp::frontmatter::{parse_frontmatter, skill_body, strip_quotes, Frontmatter};

#[test]
fn frontmatter_absent_keeps_whole_body() {
    let (fm, body) = parse_frontmatter("just body\nmore");
    assert!(fm.name.is_none() && fm.description.is_none() && fm.when_to_use.is_none());
    assert_eq!(body, "just body\nmore");
}

#[test]
fn frontmatter_full_fields_and_body() {
    let (fm, body) =
        parse_frontmatter("---\nname: n\ndescription: d\nwhen_to_use: w\n---\nthe body\nline2");
    assert_eq!(fm.name.as_deref(), Some("n"));
    assert_eq!(fm.description.as_deref(), Some("d"));
    assert_eq!(fm.when_to_use.as_deref(), Some("w"));
    assert_eq!(body, "the body\nline2");
}

#[test]
fn frontmatter_partial_and_extra_keys_ignored() {
    let (fm, _) = parse_frontmatter("---\nname: only\nmodel: x\n---\nb");
    assert_eq!(fm.name.as_deref(), Some("only"));
    assert!(fm.description.is_none());
    assert!(fm.when_to_use.is_none());
}

#[test]
fn frontmatter_strips_matching_quotes() {
    let (fm, _) = parse_frontmatter("---\nname: \"quoted\"\ndescription: 'single'\n---\nb");
    assert_eq!(fm.name.as_deref(), Some("quoted"));
    assert_eq!(fm.description.as_deref(), Some("single"));
}

#[test]
fn frontmatter_value_may_contain_colons() {
    let (fm, _) = parse_frontmatter("---\nwhen_to_use: use when: it applies\n---\nb");
    assert_eq!(fm.when_to_use.as_deref(), Some("use when: it applies"));
}

#[test]
fn frontmatter_empty_value_is_absent() {
    let (fm, _) = parse_frontmatter("---\nname:\ndescription: d\n---\nb");
    assert!(fm.name.is_none());
    assert_eq!(fm.description.as_deref(), Some("d"));
}

#[test]
fn frontmatter_no_closing_fence_is_absent() {
    let content = "---\nname: n\nno closing fence";
    let (fm, body) = parse_frontmatter(content);
    assert!(fm.name.is_none());
    assert_eq!(body, content);
}

#[test]
fn frontmatter_crlf_tolerated() {
    let (fm, body) = parse_frontmatter("---\r\nname: n\r\n---\r\nbody\r\nx");
    assert_eq!(fm.name.as_deref(), Some("n"));
    assert_eq!(body, "body\nx");
}

#[test]
fn a_fence_is_exactly_three_dashes() {
    for content in [
        " ---\nname: n\n---\nb",
        "----\nname: n\n---\nb",
        "---\nname: n\n --- \nb",
        "\n---\nname: n\n---\nb",
    ] {
        let (fm, body) = parse_frontmatter(content);
        assert!(fm.name.is_none());
        assert_eq!(body, content);
    }
}

#[test]
fn a_plain_file_is_its_body() {
    for content in ["", "\n", "a\r\nb\r\n", "---", "---\n", "name: n"] {
        let (fm, body) = parse_frontmatter(content);
        assert!(fm.name.is_none() && fm.description.is_none() && fm.when_to_use.is_none());
        assert_eq!(body, content);
    }
}

#[test]
fn the_first_closing_fence_closes() {
    let (fm, body) = parse_frontmatter("---\n---\nname: late\n---\nb");
    assert!(fm.name.is_none());
    assert_eq!(body, "name: late\n---\nb");
}

#[test]
fn the_last_line_with_a_key_sets_it() {
    let (fm, _) = parse_frontmatter("---\nname: a\n name : b\nname: \"\"\nno colon\n---\n");
    assert_eq!(fm.name.as_deref(), Some("b"));
}

#[test]
fn one_pair_of_quotes_is_stripped() {
    assert_eq!(strip_quotes("''a''"), "'a'");
    assert_eq!(strip_quotes("\"\u{1f980}\""), "\u{1f980}");
    assert_eq!(strip_quotes("\"a'"), "\"a'");
    assert_eq!(strip_quotes("'"), "'");
    assert_eq!(strip_quotes("''"), "");
    assert_eq!(strip_quotes(""), "");
    assert_eq!(strip_quotes("a'b'"), "a'b'");
}

#[test]
fn the_body_is_split_off() {
    let (fm, body) = parse_frontmatter("---\nname: n\nother\n---\none\n\n three ");
    assert_eq!(fm.name.as_deref(), Some("n"));
    assert_eq!(body, "one\n\n three ");
}

#[test]
fn the_loaded_text_is_the_trimmed_body() {
    assert_eq!(skill_body("---\nname: n\n---\n\n  body \n").as_deref(), Some("body"));
    assert_eq!(skill_body("  plain\n").as_deref(), Some("plain"));
    assert_eq!(skill_body("---\nname: n\n---\n \n\t"), None);
    assert_eq!(skill_body(""), None);
}

#[test]
fn no_field_is_set_by_default() {
    let fm = Frontmatter::default();
    assert!(fm.name.is_none() && fm.description.is_none() && fm.when_to_use.is_none());
}
