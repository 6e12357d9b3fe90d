use arcanum::mcp::common::{
    bash_arguments, bash_tool, first_text, laboratories, laboratory_id, shell_single_quote, skill_md_call,
    skill_md_command, ContentBlock, Laboratory, Server,
};

fn server(name: &str, laboratory: Option<Laboratory>) -> Server {
    Server { name: name.to_string(), laboratory }
}

fn client(id: &str) -> Option<Laboratory> {
    Some(Laboratory::Client(id.to_string()))
}

#[test]
fn only_client_laboratories_have_an_id() {
    assert_eq!(laboratory_id(&server("a", client("lab"))), Some("lab"));
    assert_eq!(laboratory_id(&server("a", Some(Laboratory::Agent))), None);
    assert_eq!(laboratory_id(&server("a", None)), None);
}

#[test]
fn a_tool_is_named_after_its_server() {
    assert_eq!(bash_tool(&server("lab_one", None)), "lab_one_Bash");
    assert_eq!(bash_tool(&server("", None)), "_Bash");
}

#[test]
fn laboratories_are_the_client_laboratories_in_order() {
    let servers = vec![
        server("a", client("one")),
        server("b", None),
        server("c", Some(Laboratory::Agent)),
        server("d", client("two")),
    ];
    assert_eq!(
        laboratories(&servers),
        vec![
            ("one".to_string(), "a_Bash".to_string()),
            ("two".to_string(), "d_Bash".to_string()),
        ]
    );
    assert_eq!(laboratories(&vec![]), vec![]);
}

#[test]
fn the_first_text_block_is_taken() {
    let text = |s: &str| ContentBlock::Text(s.to_string());
    assert_eq!(
        first_text(&vec![ContentBlock::Other, text("one"), text("two")]).as_deref(),
        Some("one")
    );
    assert_eq!(first_text(&vec![ContentBlock::Other]), None);
    assert_eq!(first_text(&vec![]), None);
}

#[test]
fn a_quoted_string_is_one_word() {
    assert_eq!(shell_single_quote("/skills/greeting"), "'/skills/greeting'");
    assert_eq!(shell_single_quote(""), "''");
    assert_eq!(shell_single_quote("it's"), "'it'\\''s'");
    assert_eq!(shell_single_quote("'"), "''\\'''");
    assert_eq!(shell_single_quote("$(x) \"y\" \\"), "'$(x) \"y\" \\'");
}

#[test]
fn the_command_reads_the_file_under_the_path() {
    assert_eq!(
        skill_md_command("/skills/it's"),
        "f=$(find '/skills/it'\\''s' -maxdepth 1 -iname 'SKILL.md' 2>/dev/null | head -1); \
         [ -n \"$f\" ] && cat \"$f\""
    );
}

#[test]
fn a_skill_is_read_from_the_first_server_that_is_its_laboratory() {
    let servers = vec![
        server("a", None),
        server("b", client("one")),
        server("c", client("two")),
        server("d", client("two")),
    ];
    let call = skill_md_call(&servers, "two", "/s").expect("a connected laboratory");
    assert_eq!(call.tool, "c_Bash");
    assert_eq!(call.command, skill_md_command("/s"));
    assert!(skill_md_call(&servers, "three", "/s").is_none());
    assert!(skill_md_call(&vec![], "one", "/s").is_none());
}

#[test]
fn a_skill_can_be_read_from_every_searched_laboratory() {
    let servers = vec![
        server("a", client("one")),
        server("b", None),
        server("c", client("two")),
        server("d", client("one")),
    ];
    let labs = laboratories(&servers);
    assert_eq!(labs.len(), 3);
    let tools: Vec<String> = labs
        .iter()
        .map(|(id, _)| skill_md_call(&servers, id, "/s").expect("connected").tool)
        .collect();
    assert_eq!(tools, vec!["a_Bash", "c_Bash", "a_Bash"]);
}

#[test]
fn a_bash_call_has_the_command_as_its_only_argument() {
    assert_eq!(
        bash_arguments("ls 'a b'"),
        vec![("command".to_string(), "ls 'a b'".to_string())]
    );
}
