//! Shared helpers for the MCP tools: an agent's connected servers, and invoking a
//! laboratory's `Bash` tool.

use vstd::prelude::*;

use crate::text;

verus! {

/// One MCP server that an agent is connected to.
pub struct Server {
    /// The prefix under which the server's tools surface.
    pub name: String,
    /// Set where the server is a laboratory.
    pub laboratory: Option<Laboratory>,
}

/// The laboratory behind a server.
pub enum Laboratory {
    /// A laboratory of the client, with its id.
    Client(String),
    /// A laboratory that an agent brought along.
    Agent,
}

/// A call of a laboratory's `Bash` tool.
pub struct BashCall {
    /// The tool's name.
    pub tool: String,
    /// The command to run.
    pub command: String,
}

/// One block of a tool's result.
pub enum ContentBlock {
    Text(String),
    Other,
}

// ---------------------------------------------------------------------------------------
// Servers
// ---------------------------------------------------------------------------------------

/// The id of the client laboratory behind a server.
pub open spec fn client_laboratory(server: Server) -> Option<Seq<char>> {
    match server.laboratory {
        Some(Laboratory::Client(id)) => Some(id@),
        _ => None,
    }
}

/// The name of the `Bash` tool of a server with the name `name`.
pub open spec fn bash_tool_name(name: Seq<char>) -> Seq<char> {
    name + "_Bash"@
}

/// The index of the first server that is the client laboratory `lab_id`, or the number of
/// servers if none is.
pub open spec fn first_hosting(servers: Seq<Server>, lab_id: Seq<char>) -> int
    decreases servers.len(),
{
    if servers.len() == 0 || client_laboratory(servers[0]) == Some(lab_id) {
        0
    } else {
        1 + first_hosting(servers.subrange(1, servers.len() as int), lab_id)
    }
}

/// The laboratories among `servers`, in order: each one's id and the name of its `Bash`
/// tool.
pub open spec fn client_laboratories(servers: Seq<Server>) -> Seq<(Seq<char>, Seq<char>)>
    decreases servers.len(),
{
    if servers.len() == 0 {
        Seq::empty()
    } else {
        let before = client_laboratories(servers.drop_last());
        match client_laboratory(servers.last()) {
            Some(id) => before.push((id, bash_tool_name(servers.last().name@))),
            None => before,
        }
    }
}

/// The views of pairs of strings.
pub open spec fn pair_texts(v: Seq<(String, String)>) -> Seq<(Seq<char>, Seq<char>)> {
    v.map_values(|p: (String, String)| (p.0@, p.1@))
}

/// The laboratory id of a server, if it is a client laboratory.
pub fn laboratory_id(server: &Server) -> (r: Option<&str>)
    ensures
        r is Some <==> client_laboratory(*server) is Some,
        r matches Some(id) ==> client_laboratory(*server) == Some(id@),
        match server.laboratory {
            Some(Laboratory::Client(id)) => r matches Some(found) && found@ == id@,
            _ => r is None,
        },
{
    match &server.laboratory {
        Some(Laboratory::Client(id)) => Some(id.as_str()),
        _ => None,
    }
}

/// The `Bash` tool name for a server. Tools surface through the proxy as
/// `<server.name>_<tool>`, so the laboratory's `Bash` tool is `<server.name>_Bash`.
pub fn bash_tool(server: &Server) -> (r: String)
    ensures
        r@ == bash_tool_name(server.name@),
        r@ == server.name@ + "_Bash"@,
{
    text::concat2(server.name.as_str(), "_Bash")
}

/// The laboratories an agent is connected to: each one's id and `Bash` tool name.
pub fn laboratories(servers: &Vec<Server>) -> (r: Vec<(String, String)>)
    ensures
        pair_texts(r@) == client_laboratories(servers@),
{
    let mut labs: Vec<(String, String)> = Vec::new();
    let mut i: usize = 0;
    assert(pair_texts(labs@) =~= client_laboratories(servers@.subrange(0, 0)));
    while i < servers.len()
        invariant
            i <= servers.len(),
            pair_texts(labs@) == client_laboratories(servers@.subrange(0, i as int)),
        decreases servers.len() - i,
    {
        let ghost before = pair_texts(labs@);
        assert(servers@.subrange(0, i + 1).drop_last() == servers@.subrange(0, i as int));
        if let Some(id) = laboratory_id(&servers[i]) {
            labs.push((id.to_string(), bash_tool(&servers[i])));
            assert(pair_texts(labs@) =~= before.push(
                (id@, bash_tool_name(servers@[i as int].name@)),
            ));
        }
        i = i + 1;
    }
    assert(servers@.subrange(0, i as int) == servers@);
    labs
}

/// The arguments of a call of a `Bash` tool that runs `command`: each one's name and text.
pub fn bash_arguments(command: &str) -> (r: Vec<(String, String)>)
    ensures
        pair_texts(r@) == seq![("command"@, command@)],
{
    let mut arguments: Vec<(String, String)> = Vec::new();
    arguments.push(("command".to_string(), command.to_string()));
    assert(pair_texts(arguments@) =~= seq![("command"@, command@)]);
    arguments
}

/// The text of the first text block of a tool's result.
pub open spec fn first_text_of(blocks: Seq<ContentBlock>) -> Option<Seq<char>>
    decreases blocks.len(),
{
    if blocks.len() == 0 {
        None
    } else {
        match blocks[0] {
            ContentBlock::Text(t) => Some(t@),
            ContentBlock::Other => first_text_of(blocks.subrange(1, blocks.len() as int)),
        }
    }
}

/// The text of the first text block, if there is one.
pub fn first_text(blocks: &Vec<ContentBlock>) -> (r: Option<String>)
    ensures
        text::text_option(r) == first_text_of(blocks@),
{
    let mut i: usize = 0;
    assert(blocks@.subrange(0, blocks.len() as int) == blocks@);
    while i < blocks.len()
        invariant
            i <= blocks.len(),
            first_text_of(blocks@) == first_text_of(
                blocks@.subrange(i as int, blocks.len() as int),
            ),
        decreases blocks.len() - i,
    {
        let ghost rest = blocks@.subrange(i as int, blocks.len() as int);
        assert(rest[0] == blocks@[i as int]);
        match &blocks[i] {
            ContentBlock::Text(t) => {
                return Some(t.clone());
            },
            ContentBlock::Other => {
                assert(rest.subrange(1, rest.len() as int) == blocks@.subrange(
                    i + 1,
                    blocks.len() as int,
                ));
            },
        }
        i = i + 1;
    }
    None
}

// ---------------------------------------------------------------------------------------
// Quoting for the shell
// ---------------------------------------------------------------------------------------

/// `s` with each single quote replaced by a closing quote, an escaped quote and an opening
/// quote.
pub open spec fn quotes_escaped(s: Seq<char>) -> Seq<char>
    decreases s.len(),
{
    if s.len() == 0 {
        Seq::empty()
    } else {
        let rest = quotes_escaped(s.subrange(1, s.len() as int));
        if s[0] == '\'' {
            "'\\''"@ + rest
        } else {
            seq![s[0]] + rest
        }
    }
}

/// `s` as one word of a shell command.
pub open spec fn shell_quoted(s: Seq<char>) -> Seq<char> {
    "'"@ + quotes_escaped(s) + "'"@
}

/// The word that the shell makes of `s` by quote removal, if `s` is one word of which every
/// part is quoted. Between two single quotes each character stands for itself; outside them
/// only a backslash with a single quote behind it may stand, which is that quote.
pub open spec fn shell_word(s: Seq<char>, in_quotes: bool) -> Option<Seq<char>>
    decreases s.len(),
{
    if s.len() == 0 {
        if in_quotes {
            None
        } else {
            Some(Seq::empty())
        }
    } else if s[0] == '\'' {
        shell_word(s.subrange(1, s.len() as int), !in_quotes)
    } else if in_quotes {
        match shell_word(s.subrange(1, s.len() as int), true) {
            Some(w) => Some(seq![s[0]] + w),
            None => None,
        }
    } else if s.len() >= 2 && s[0] == '\\' && s[1] == '\'' {
        match shell_word(s.subrange(2, s.len() as int), false) {
            Some(w) => Some(seq!['\''] + w),
            None => None,
        }
    } else {
        None
    }
}

/// Single-quote a string for safe embedding in a bash command.
pub fn shell_single_quote(s: &str) -> (r: String)
    ensures
        r@ == shell_quoted(s@),
{
    let v = text::chars_of(s);
    let mut r = "'".to_string();
    let mut i: usize = 0;
    assert(s@.subrange(0, v.len() as int) == s@);
    while i < v.len()
        invariant
            i <= v.len(),
            v@ == s@,
            "'"@ + quotes_escaped(s@) == r@ + quotes_escaped(
                s@.subrange(i as int, v.len() as int),
            ),
        decreases v.len() - i,
    {
        let ghost rest = s@.subrange(i as int, v.len() as int);
        let ghost tail = quotes_escaped(s@.subrange(i + 1, v.len() as int));
        let ghost before = r@;
        assert(rest.subrange(1, rest.len() as int) == s@.subrange(i + 1, v.len() as int));
        if v[i] == '\'' {
            r.append("'\\''");
            assert(before + ("'\\''"@ + tail) =~= before + "'\\''"@ + tail);
        } else {
            r.push(v[i]);
            assert(before + (seq![rest[0]] + tail) =~= before.push(rest[0]) + tail);
        }
        i = i + 1;
    }
    assert(r@ + quotes_escaped(s@.subrange(i as int, v.len() as int)) =~= r@);
    r.append("'");
    r
}

/// What follows an opening quote reads back as `s`.
proof fn lemma_escaped_reads_back(s: Seq<char>)
    ensures
        shell_word(quotes_escaped(s) + seq!['\''], true) == Some(s),
    decreases s.len(),
{
    let end = seq!['\''];
    if s.len() == 0 {
        let t = quotes_escaped(s) + end;
        assert(t =~= end);
        assert(t.subrange(1, t.len() as int) =~= Seq::<char>::empty());
        assert(shell_word(Seq::<char>::empty(), false) == Some(Seq::<char>::empty()));
        assert(s =~= Seq::<char>::empty());
    } else {
        let rest = s.subrange(1, s.len() as int);
        let t = quotes_escaped(s) + end;
        let u = quotes_escaped(rest) + end;
        lemma_escaped_reads_back(rest);
        assert(seq![s[0]] + rest =~= s);
        if s[0] == '\'' {
            reveal_strlit("'\\''");
            assert("'\\''"@ =~= seq!['\'', '\\', '\'', '\'']);
            assert(t =~= seq!['\'', '\\', '\'', '\''] + u);
            let t1 = t.subrange(1, t.len() as int);
            let t3 = t1.subrange(2, t1.len() as int);
            assert(t1[0] == '\\' && t1[1] == '\'');
            assert(t3[0] == '\'');
            assert(t3.subrange(1, t3.len() as int) =~= u);
            assert(shell_word(t3, false) == shell_word(u, true));
            assert(shell_word(t1, false) == Some(seq!['\''] + rest));
        } else {
            assert(t =~= seq![s[0]] + u);
            assert(t.subrange(1, t.len() as int) =~= u);
        }
    }
}

/// A quoted string is one word of a shell command, and that word is the string itself,
/// whatever characters it holds.
pub proof fn law_quoted_string_is_one_word(s: Seq<char>)
    ensures
        shell_word(shell_quoted(s), false) == Some(s),
{
    reveal_strlit("'");
    assert("'"@ =~= seq!['\'']);
    let q = shell_quoted(s);
    assert(q =~= seq!['\''] + (quotes_escaped(s) + seq!['\'']));
    assert(q.subrange(1, q.len() as int) =~= quotes_escaped(s) + seq!['\'']);
    lemma_escaped_reads_back(s);
}

// ---------------------------------------------------------------------------------------
// Reading a skill
// ---------------------------------------------------------------------------------------

/// The command that prints the `SKILL.md` (case-insensitive) directly under `path`.
pub open spec fn skill_md_command_text(path: Seq<char>) -> Seq<char> {
    "f=$(find "@ + shell_quoted(path)
        + " -maxdepth 1 -iname 'SKILL.md' 2>/dev/null | head -1); [ -n \"$f\" ] && cat \"$f\""@
}

/// The command that prints the `SKILL.md` (case-insensitive) directly under `path`.
pub fn skill_md_command(path: &str) -> (r: String)
    ensures
        r@ == skill_md_command_text(path@),
        r@ == "f=$(find "@ + shell_quoted(path@)
            + " -maxdepth 1 -iname 'SKILL.md' 2>/dev/null | head -1); [ -n \"$f\" ] && cat \"$f\""@,
{
    let quoted = shell_single_quote(path);
    text::concat3(
        "f=$(find ",
        quoted.as_str(),
        " -maxdepth 1 -iname 'SKILL.md' 2>/dev/null | head -1); [ -n \"$f\" ] && cat \"$f\"",
    )
}

/// The call that reads the `SKILL.md` directly under `path` in laboratory `lab_id`: on the
/// first of the agent's servers that is this laboratory, or `None` if it is not connected.
pub fn skill_md_call(servers: &Vec<Server>, lab_id: &str, path: &str) -> (r: Option<BashCall>)
    ensures
        r is Some <==> first_hosting(servers@, lab_id@) < servers.len(),
        r matches Some(call) ==> {
            &&& call.tool@ == bash_tool_name(servers@[first_hosting(servers@, lab_id@)].name@)
            &&& call.command@ == skill_md_command_text(path@)
        },
{
    let mut i: usize = 0;
    assert(servers@.subrange(0, servers.len() as int) == servers@);
    while i < servers.len()
        invariant
            i <= servers.len(),
            first_hosting(servers@, lab_id@) == i + first_hosting(
                servers@.subrange(i as int, servers.len() as int),
                lab_id@,
            ),
        decreases servers.len() - i,
    {
        let ghost rest = servers@.subrange(i as int, servers.len() as int);
        assert(rest[0] == servers@[i as int]);
        if let Some(id) = laboratory_id(&servers[i]) {
            if text::same_text(id, lab_id) {
                return Some(
                    BashCall { tool: bash_tool(&servers[i]), command: skill_md_command(path) },
                );
            }
        }
        assert(rest.subrange(1, rest.len() as int) == servers@.subrange(
            i + 1,
            servers.len() as int,
        ));
        i = i + 1;
    }
    None
}

/// `first_hosting` is the least index of a server that is the laboratory.
proof fn lemma_first_hosting(servers: Seq<Server>, lab_id: Seq<char>)
    ensures
        0 <= first_hosting(servers, lab_id) <= servers.len(),
        first_hosting(servers, lab_id) < servers.len() ==> client_laboratory(
            servers[first_hosting(servers, lab_id)],
        ) == Some(lab_id),
        forall|j: int|
            0 <= j < first_hosting(servers, lab_id) ==> client_laboratory(#[trigger] servers[j])
                != Some(lab_id),
    decreases servers.len(),
{
    if servers.len() > 0 && client_laboratory(servers[0]) != Some(lab_id) {
        let rest = servers.subrange(1, servers.len() as int);
        lemma_first_hosting(rest, lab_id);
        assert forall|j: int| 0 <= j < first_hosting(servers, lab_id) implies client_laboratory(
            #[trigger] servers[j],
        ) != Some(lab_id) by {
            if j > 0 {
                assert(servers[j] == rest[j - 1]);
            }
        }
    }
}

/// Each laboratory stands for a server that is it.
proof fn lemma_laboratory_has_server(servers: Seq<Server>, i: int)
    requires
        0 <= i < client_laboratories(servers).len(),
    ensures
        exists|j: int|
            0 <= j < servers.len() && client_laboratory(#[trigger] servers[j]) == Some(
                client_laboratories(servers)[i].0,
            ),
    decreases servers.len(),
{
    let before = client_laboratories(servers.drop_last());
    if i < before.len() {
        lemma_laboratory_has_server(servers.drop_last(), i);
        let j = choose|j: int|
            0 <= j < servers.drop_last().len() && client_laboratory(
                #[trigger] servers.drop_last()[j],
            ) == Some(before[i].0);
        assert(servers[j] == servers.drop_last()[j]);
    } else {
        assert(client_laboratory(servers[servers.len() - 1]) == Some(
            client_laboratories(servers)[i].0,
        ));
    }
}

/// A skill can be read from every laboratory that is searched: the laboratory ids of an
/// agent's servers each lead to a server that is that laboratory.
pub proof fn law_searched_laboratory_can_be_read(servers: Seq<Server>, i: int)
    requires
        0 <= i < client_laboratories(servers).len(),
    ensures
        ({
            let lab_id = client_laboratories(servers)[i].0;
            let first = first_hosting(servers, lab_id);
            &&& 0 <= first < servers.len()
            &&& client_laboratory(servers[first]) == Some(lab_id)
        }),
{
    let lab_id = client_laboratories(servers)[i].0;
    lemma_laboratory_has_server(servers, i);
    lemma_first_hosting(servers, lab_id);
    let j = choose|j: int|
        0 <= j < servers.len() && client_laboratory(#[trigger] servers[j]) == Some(lab_id);
    assert(j >= first_hosting(servers, lab_id));
}

/// A server's `Bash` tool is the server's name with `_Bash` behind it.
pub proof fn law_tool_is_named_after_its_server(name: Seq<char>)
    ensures
        bash_tool_name(name).len() == name.len() + 5,
        bash_tool_name(name).subrange(0, name.len() as int) == name,
        bash_tool_name(name).subrange(name.len() as int, name.len() as int + 5) == seq![
            '_',
            'B',
            'a',
            's',
            'h',
        ],
{
    reveal_strlit("_Bash");
    let n = bash_tool_name(name);
    assert(n.subrange(0, name.len() as int) =~= name);
    assert(n.subrange(name.len() as int, name.len() as int + 5) =~= seq!['_', 'B', 'a', 's', 'h']);
}

/// The laboratories are those of the servers, one by one and in order: a server that is a
/// client laboratory gives its id and its `Bash` tool, and any other gives none.
pub proof fn law_laboratories_follow_the_servers(a: Seq<Server>, server: Server, b: Seq<Server>)
    ensures
        client_laboratories(a + b) == client_laboratories(a) + client_laboratories(b),
        match server.laboratory {
            Some(Laboratory::Client(id)) => client_laboratories(seq![server]) == seq![
                (id@, server.name@ + "_Bash"@),
            ],
            _ => client_laboratories(seq![server]) == Seq::<(Seq<char>, Seq<char>)>::empty(),
        },
    decreases b.len(),
{
    assert(seq![server].drop_last() =~= Seq::<Server>::empty());
    assert(client_laboratories(Seq::<Server>::empty()) =~= Seq::empty());
    assert(seq![server].last() == server);
    assert(client_laboratories(seq![server]) =~= match server.laboratory {
        Some(Laboratory::Client(id)) => seq![(id@, server.name@ + "_Bash"@)],
        _ => Seq::empty(),
    });
    if b.len() == 0 {
        assert(a + b =~= a);
        assert(client_laboratories(a) + client_laboratories(b) =~= client_laboratories(a));
    } else {
        law_laboratories_follow_the_servers(a, server, b.drop_last());
        assert((a + b).drop_last() =~= a + b.drop_last());
        assert((a + b).last() == b.last());
        assert(client_laboratories(a + b) =~= client_laboratories(a) + client_laboratories(b));
    }
}

/// Each pair of strings stands for its own characters.
pub proof fn law_pairs_are_the_strings(v: Seq<(String, String)>)
    ensures
        pair_texts(v).len() == v.len(),
        forall|i: int|
            0 <= i < v.len() ==> (#[trigger] pair_texts(v)[i]).0 == v[i].0@ && pair_texts(v)[i].1
                == v[i].1@,
{
}

/// The text that is taken from a tool's result is that of the first text block, whole; blocks
/// of other kinds are passed over, and where there are no others nothing is taken.
pub proof fn law_first_text_block_is_taken(
    before: Seq<ContentBlock>,
    t: String,
    after: Seq<ContentBlock>,
)
    requires
        forall|i: int| 0 <= i < before.len() ==> (#[trigger] before[i]) is Other,
    ensures
        first_text_of(before + seq![ContentBlock::Text(t)] + after) == Some(t@),
        first_text_of(before) is None,
    decreases before.len(),
{
    let all = before + seq![ContentBlock::Text(t)] + after;
    if before.len() == 0 {
        assert(all[0] == ContentBlock::Text(t));
    } else {
        let rest = before.subrange(1, before.len() as int);
        assert forall|i: int| 0 <= i < rest.len() implies (#[trigger] rest[i]) is Other by {
            assert(rest[i] == before[i + 1]);
        }
        law_first_text_block_is_taken(rest, t, after);
        assert(before[0] is Other);
        assert(all[0] == before[0]);
        assert(all.subrange(1, all.len() as int) =~= rest + seq![ContentBlock::Text(t)] + after);
    }
}

/// Only single quotes are escaped, each by itself: any other character stands for itself, in
/// its place.
pub proof fn law_only_quotes_are_escaped(a: Seq<char>, b: Seq<char>, c: char)
    ensures
        quotes_escaped(a + b) == quotes_escaped(a) + quotes_escaped(b),
        c != '\'' ==> quotes_escaped(seq![c]) == seq![c],
        quotes_escaped(seq!['\'']) == seq!['\'', '\\', '\'', '\''],
    decreases a.len(),
{
    reveal_strlit("'\\''");
    assert(seq![c].subrange(1, 1) =~= Seq::<char>::empty());
    assert(seq!['\''].subrange(1, 1) =~= Seq::<char>::empty());
    assert(quotes_escaped(Seq::<char>::empty()) =~= Seq::<char>::empty());
    assert(c != '\'' ==> quotes_escaped(seq![c]) =~= seq![c]);
    assert(quotes_escaped(seq!['\'']) =~= seq!['\'', '\\', '\'', '\'']);
    if a.len() == 0 {
        assert(a + b =~= b);
        assert(quotes_escaped(a) + quotes_escaped(b) =~= quotes_escaped(b));
    } else {
        let rest = a.subrange(1, a.len() as int);
        law_only_quotes_are_escaped(rest, b, c);
        assert((a + b)[0] == a[0]);
        assert((a + b).subrange(1, (a + b).len() as int) =~= rest + b);
        assert(quotes_escaped(a + b) =~= quotes_escaped(a) + quotes_escaped(b));
    }
}

/// A quoted string stands between two single quotes.
pub proof fn law_quoted_string_stands_in_quotes(s: Seq<char>)
    ensures
        shell_quoted(s).len() == quotes_escaped(s).len() + 2,
        shell_quoted(s)[0] == '\'',
        shell_quoted(s).last() == '\'',
        shell_quoted(s).subrange(1, shell_quoted(s).len() - 1) == quotes_escaped(s),
{
    reveal_strlit("'");
    assert(shell_quoted(s).subrange(1, shell_quoted(s).len() - 1) =~= quotes_escaped(s));
}

/// The command that reads a skill differs from path to path in one word alone: what stands
/// before and behind the quoted path is the same for all.
pub proof fn law_command_holds_the_quoted_path(path: Seq<char>)
    ensures
        ({
            let head = "f=$(find "@;
            let tail =
                " -maxdepth 1 -iname 'SKILL.md' 2>/dev/null | head -1); [ -n \"$f\" ] && cat \"$f\""@;
            let quoted = shell_quoted(path);
            let command = skill_md_command_text(path);
            &&& command.len() == head.len() + quoted.len() + tail.len()
            &&& command.subrange(0, head.len() as int) == head
            &&& command.subrange(head.len() as int, (head.len() + quoted.len()) as int) == quoted
            &&& command.subrange((head.len() + quoted.len()) as int, command.len() as int) == tail
        }),
{
    let head = "f=$(find "@;
    let tail =
        " -maxdepth 1 -iname 'SKILL.md' 2>/dev/null | head -1); [ -n \"$f\" ] && cat \"$f\""@;
    let quoted = shell_quoted(path);
    let command = skill_md_command_text(path);
    assert(command.subrange(0, head.len() as int) =~= head);
    assert(command.subrange(head.len() as int, (head.len() + quoted.len()) as int) =~= quoted);
    assert(command.subrange((head.len() + quoted.len()) as int, command.len() as int) =~= tail);
}

/// A skill is read from the first server that is its laboratory, and from none where no server
/// is.
pub proof fn law_first_laboratory_is_read(
    before: Seq<Server>,
    server: Server,
    after: Seq<Server>,
    id: String,
)
    requires
        forall|i: int|
            0 <= i < before.len() ==> ((#[trigger] before[i]).laboratory matches Some(
                Laboratory::Client(other),
            ) ==> other@ != id@),
        server.laboratory == Some(Laboratory::Client(id)),
    ensures
        first_hosting(before + seq![server] + after, id@) == before.len(),
        first_hosting(before, id@) == before.len(),
{
    let all = before + seq![server] + after;
    lemma_first_hosting(all, id@);
    lemma_first_hosting(before, id@);
    let p = first_hosting(all, id@);
    assert(all[before.len() as int] == server);
    assert(client_laboratory(server) == Some(id@));
    if p < before.len() {
        assert(all[p] == before[p]);
    }
    let q = first_hosting(before, id@);
    if q < before.len() {
        assert(client_laboratory(before[q]) == Some(id@));
    }
}

}
