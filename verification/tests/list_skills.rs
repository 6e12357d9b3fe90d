use arcanum::mcp::list_skills::{
    collect_skills, parse_skills, skill_folder, skill_item, FIND_CMD, RS,
};

/// Frame `(path, content)` records the way `FIND_CMD` does.
fn framed(records: &[(&str, &str)]) -> String {
    records
        .iter()
        .map(|(p, c)| format!("{RS}{p}{RS}{c}"))
        .collect()
}

#[test]
fn parses_frontmatter_and_excludes_root() {
    let out = framed(&[
        ("/a/b/SKILL.md", "---\nname: beta\ndescription: d\nwhen_to_use: w\n---\nbody"),
        ("/x/skill.md", "---\nname: xray\n---\nbody"), // case-insensitive filename
        ("/SKILL.md", "---\nname: root\n---\nbody"),   // root-level: excluded
    ]);
    let items = parse_skills("lab1", &out);
    assert_eq!(items.len(), 2);
    assert_eq!(items[0].name, "beta"); // frontmatter name, not folder "b"
    assert_eq!(items[0].description.as_deref(), Some("d"));
    assert_eq!(items[0].when_to_use.as_deref(), Some("w"));
    assert_eq!(items[0].path, "/a/b");
    assert_eq!(items[0].laboratory_id, "lab1");
    assert_eq!(items[1].name, "xray");
    assert!(items[1].description.is_none());
    assert_eq!(items[1].path, "/x");
}

#[test]
fn skips_skills_without_a_name() {
    let out = framed(&[
        ("/a/named/SKILL.md", "---\nname: named\n---\nbody"),
        ("/a/desc-only/SKILL.md", "---\ndescription: d\n---\nbody"),
        ("/a/plain/SKILL.md", "no frontmatter at all"),
    ]);
    let items = parse_skills("lab", &out);
    assert_eq!(items.len(), 1);
    assert_eq!(items[0].name, "named");
}

#[test]
fn keeps_duplicates() {
    let rec = ("/a/b/SKILL.md", "---\nname: b\n---\nx");
    let out = framed(&[rec, rec]);
    assert_eq!(parse_skills("lab", &out).len(), 2);
}

#[test]
fn noise_before_the_first_record_is_passed_over() {
    let out = format!("noise{}", framed(&[("/a/b/SKILL.md", "---\nname: b\n---\nx")]));
    let items = parse_skills("lab", &out);
    assert_eq!(items.len(), 1);
    assert_eq!(items[0].path, "/a/b");
    assert_eq!(parse_skills("lab", "noise alone").len(), 0);
    assert_eq!(parse_skills("lab", "").len(), 0);
}

#[test]
fn a_path_without_content_names_no_skill() {
    assert_eq!(parse_skills("lab", "\u{1e}/a/b/SKILL.md").len(), 0);
    let out = "\u{1e}/a/b/SKILL.md\u{1e}---\nname: b\n---\u{1e}/c/SKILL.md";
    assert_eq!(parse_skills("lab", out).len(), 1);
    let out = "\u{1e} \u{1e}---\nname: blank\n---\u{1e}/c/SKILL.md\u{1e}---\nname: c\n---";
    let items = parse_skills("lab", out);
    assert_eq!(items.len(), 1);
    assert_eq!(items[0].name, "c");
}

#[test]
fn a_folder_stands_before_the_last_slash() {
    assert_eq!(skill_folder("/a/b/SKILL.md").as_deref(), Some("/a/b"));
    assert_eq!(skill_folder(" /a/SKILL.md\n").as_deref(), Some("/a"));
    assert_eq!(skill_folder("a/SKILL.md").as_deref(), Some("a"));
    assert_eq!(skill_folder("/SKILL.md"), None);
    assert_eq!(skill_folder("SKILL.md"), None);
    assert_eq!(skill_folder(""), None);
    assert_eq!(skill_folder("//SKILL.md").as_deref(), Some("/"));
    assert_eq!(skill_folder("a\\b\\SKILL.md"), None);
}

#[test]
fn one_file_gives_one_item() {
    let item = skill_item("lab", "/s/SKILL.md", "---\nname: n\nwhen_to_use: w\n---\n");
    let item = item.expect("a named skill in a folder");
    assert_eq!(item.laboratory_id, "lab");
    assert_eq!(item.name, "n");
    assert!(item.description.is_none());
    assert_eq!(item.when_to_use.as_deref(), Some("w"));
    assert_eq!(item.path, "/s");
    assert!(skill_item("lab", "/s/SKILL.md", "").is_none());
}

#[test]
fn laboratories_are_collected_in_order_and_failed_ones_skipped() {
    let lab = |id: &str| (id.to_string(), format!("{id}_Bash"));
    let labs = vec![lab("one"), lab("two"), lab("three")];
    let outputs = vec![
        Some(framed(&[
            ("/skills/greeting/SKILL.md", "---\nname: hello\n---\nx"),
            ("/skills/farewell/SKILL.md", "---\nname: bye\n---\nx"),
        ])),
        None,
        Some(framed(&[("/skills/greeting/SKILL.md", "---\nname: greeting\n---\nx")])),
    ];
    let items = collect_skills(&labs, &outputs);
    let found: Vec<(&str, &str)> =
        items.iter().map(|i| (i.laboratory_id.as_str(), i.name.as_str())).collect();
    assert_eq!(found, vec![("one", "hello"), ("one", "bye"), ("three", "greeting")]);
    assert_eq!(collect_skills(&vec![], &vec![]).len(), 0);
}

#[test]
fn the_find_command_frames_with_the_separator() {
    assert!(FIND_CMD.contains("printf '\\036%s\\036' \"$f\""));
    assert_eq!(RS as u32, 0o36);
}
