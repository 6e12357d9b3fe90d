//! The `list_skills` tool: enumerate every named `SKILL.md` across the caller's
//! laboratories, reading each one's frontmatter.
//!
//! A laboratory's filesystem is read by running a `find` through its `Bash` tool that emits
//! each `SKILL.md`'s path and content; the output is parsed here.

use vstd::prelude::*;

use crate::mcp::common;
use crate::mcp::frontmatter;
use crate::text;

verus! {

/// Record separator (ASCII RS) framing the find output: for each file the command prints
/// `<RS><path><RS><content>`. RS never appears in text and survives the `Bash` tool's JSON
/// stdout, so splitting on it is unambiguous.
pub const RS: char = '\u{1e}';

/// Bash command run inside each laboratory: locate every `SKILL.md` (case-insensitive,
/// pruning pseudo-filesystems for speed) and, for each, print its path and full content
/// framed by [`RS`].
pub const FIND_CMD: &'static str =
    "find / \\( -path /proc -o -path /sys -o -path /dev \\) -prune -o -type f -iname 'SKILL.md' -print 2>/dev/null | while IFS= read -r f; do printf '\\036%s\\036' \"$f\"; cat \"$f\" 2>/dev/null; done";

/// One discovered skill: which laboratory it lives in, its frontmatter `name`, optional
/// `description` and `when_to_use`, and its folder path within the laboratory.
pub struct SkillItem {
    pub laboratory_id: String,
    pub name: String,
    pub description: Option<String>,
    pub when_to_use: Option<String>,
    pub path: String,
}

/// What a [`SkillItem`] holds.
pub struct SkillItemView {
    pub laboratory_id: Seq<char>,
    pub name: Seq<char>,
    pub description: Option<Seq<char>>,
    pub when_to_use: Option<Seq<char>>,
    pub path: Seq<char>,
}

impl View for SkillItem {
    type V = SkillItemView;

    open spec fn view(&self) -> SkillItemView {
        SkillItemView {
            laboratory_id: self.laboratory_id@,
            name: self.name@,
            description: text::text_option(self.description),
            when_to_use: text::text_option(self.when_to_use),
            path: self.path@,
        }
    }
}

/// The views of a sequence of items.
pub open spec fn item_views(v: Seq<SkillItem>) -> Seq<SkillItemView> {
    v.map_values(|i: SkillItem| i@)
}

// ---------------------------------------------------------------------------------------
// What the output of a laboratory means
// ---------------------------------------------------------------------------------------

/// The folder of a file: what stands before the last `/` of its trimmed path. A file at the
/// filesystem root, and a bare name, have none.
pub open spec fn folder(path: Seq<char>) -> Option<Seq<char>> {
    let p = text::trimmed(path);
    let slash = text::last_position(p, '/');
    if slash > 0 {
        Some(p.subrange(0, slash))
    } else {
        None
    }
}

/// The item that one `SKILL.md` gives, if it lies in a folder and its frontmatter names it.
pub open spec fn skill_of(lab_id: Seq<char>, path: Seq<char>, content: Seq<char>) -> Option<
    SkillItemView,
> {
    let fm = frontmatter::frontmatter_of(content);
    match (folder(path), fm.name) {
        (Some(dir), Some(name)) => Some(
            SkillItemView {
                laboratory_id: lab_id,
                name,
                description: fm.description,
                when_to_use: fm.when_to_use,
                path: dir,
            },
        ),
        _ => None,
    }
}

/// The items of records of a path and a content, in order.
pub open spec fn skills_of(lab_id: Seq<char>, records: Seq<(Seq<char>, Seq<char>)>) -> Seq<
    SkillItemView,
>
    decreases records.len(),
{
    if records.len() == 0 {
        Seq::empty()
    } else {
        let before = skills_of(lab_id, records.drop_last());
        match skill_of(lab_id, records.last().0, records.last().1) {
            Some(item) => before.push(item),
            None => before,
        }
    }
}

/// Neighbouring chunks as records: a path and the content behind it. A path with nothing
/// behind it has an empty content.
pub open spec fn paired(chunks: Seq<Seq<char>>) -> Seq<(Seq<char>, Seq<char>)> {
    Seq::new(
        ((chunks.len() + 1) / 2) as nat,
        |i: int|
            (
                chunks[2 * i],
                if 2 * i + 1 < chunks.len() {
                    chunks[2 * i + 1]
                } else {
                    Seq::empty()
                },
            ),
    )
}

/// The records that the output of the find command frames. Everything before the first
/// separator is noise.
pub open spec fn records_in(stdout: Seq<char>) -> Seq<(Seq<char>, Seq<char>)> {
    let chunks = text::pieces(stdout, RS);
    paired(chunks.subrange(1, chunks.len() as int))
}

/// The items that the output of laboratory `lab_id` lists.
pub open spec fn listed_skills(lab_id: Seq<char>, stdout: Seq<char>) -> Seq<SkillItemView> {
    skills_of(lab_id, records_in(stdout))
}

/// The items of all laboratories, in order. A laboratory without output contributes nothing.
pub open spec fn all_skills(
    labs: Seq<(Seq<char>, Seq<char>)>,
    outputs: Seq<Option<Seq<char>>>,
) -> Seq<SkillItemView>
    decreases labs.len(),
{
    if labs.len() == 0 {
        Seq::empty()
    } else {
        all_skills(labs.drop_last(), outputs.drop_last()) + match outputs.last() {
            Some(stdout) => listed_skills(labs.last().0, stdout),
            None => Seq::empty(),
        }
    }
}

// ---------------------------------------------------------------------------------------
// Functions
// ---------------------------------------------------------------------------------------

/// The folder of a file, unless it lies at the filesystem root or is a bare name. Paths are
/// split on `/` whatever the host's own separator is.
pub fn skill_folder(path: &str) -> (r: Option<String>)
    ensures
        text::text_option(r) == folder(path@),
{
    let p = text::trim(path);
    proof {
        text::lemma_last_position(p@, '/');
    }
    match text::rsplit_once(p, '/') {
        Some((dir, _)) => {
            if dir.is_empty() {
                None
            } else {
                Some(dir.to_string())
            }
        },
        None => None,
    }
}

/// The item that one `SKILL.md` gives, if it lies in a folder and its frontmatter names it.
pub fn skill_item(lab_id: &str, path: &str, content: &str) -> (r: Option<SkillItem>)
    ensures
        r is Some <==> skill_of(lab_id@, path@, content@) is Some,
        r matches Some(item) ==> skill_of(lab_id@, path@, content@) == Some(item@),
        r matches Some(item) ==> {
            let fm = frontmatter::frontmatter_of(content@);
            &&& item.laboratory_id@ == lab_id@
            &&& fm.name == Some(item.name@)
            &&& text::text_option(item.description) == fm.description
            &&& text::text_option(item.when_to_use) == fm.when_to_use
            &&& folder(path@) == Some(item.path@)
        },
{
    match skill_folder(path) {
        Some(dir) => {
            let (fm, _) = frontmatter::parse_frontmatter(content);
            match fm.name {
                Some(name) => Some(
                    SkillItem {
                        laboratory_id: lab_id.to_string(),
                        name,
                        description: fm.description,
                        when_to_use: fm.when_to_use,
                        path: dir,
                    },
                ),
                None => None,
            }
        },
        None => None,
    }
}

/// There is at least one piece.
proof fn lemma_pieces_nonempty(s: Seq<char>, sep: char)
    ensures
        text::pieces(s, sep).len() >= 1,
{
}

/// Parse the RS-framed `find` stdout into skill items. Records alternate
/// `<RS><path><RS><content>`, so splitting on [`RS`] yields (after the leading chunk)
/// path/content pairs. For each pair: the skill's `path` is the containing folder (a
/// `SKILL.md` at the filesystem root is excluded), and its name/description/when_to_use come
/// from the content's frontmatter. A skill whose frontmatter has no `name` is skipped.
/// Duplicates are kept.
pub fn parse_skills(lab_id: &str, stdout: &str) -> (r: Vec<SkillItem>)
    ensures
        item_views(r@) == listed_skills(lab_id@, stdout@),
{
    let chunks = text::split(stdout, RS);
    let n: usize = chunks.len();
    let ghost cs = text::pieces(stdout@, RS);
    let ghost records = records_in(stdout@);
    proof {
        lemma_pieces_nonempty(stdout@, RS);
        assert(cs.len() == n);
        assert(records.subrange(0, 0) =~= Seq::empty());
    }
    let mut items: Vec<SkillItem> = Vec::new();
    let ghost mut done: int = 0;
    assert(item_views(items@) =~= skills_of(lab_id@, records.subrange(0, 0)));
    let mut i: usize = 1;
    while i < n
        invariant
            1 <= i <= n,
            n == chunks.len(),
            cs == text::texts(chunks@),
            records == paired(cs.subrange(1, n as int)),
            0 <= done <= records.len(),
            i == n || i == 2 * done + 1,
            i == n ==> done == records.len(),
            item_views(items@) == skills_of(lab_id@, records.subrange(0, done)),
        decreases n - i,
    {
        let ghost upto = records.subrange(0, done + 1);
        let ghost before = item_views(items@);
        assert(upto.drop_last() =~= records.subrange(0, done));
        assert(cs.subrange(1, n as int)[2 * done] == chunks@[i as int]@);
        let content = if i + 1 < n {
            assert(cs.subrange(1, n as int)[2 * done + 1] == chunks@[i + 1]@);
            chunks[i + 1].as_str()
        } else {
            ""
        };
        proof {
            reveal_strlit("");
            assert(""@ =~= Seq::<char>::empty());
            assert(upto.last() == (chunks@[i as int]@, content@));
        }
        if let Some(item) = skill_item(lab_id, chunks[i].as_str(), content) {
            items.push(item);
            assert(item_views(items@) =~= before.push(item@));
        }
        proof {
            done = done + 1;
        }
        i = if i + 1 < n {
            i + 2
        } else {
            n
        };
    }
    assert(records.subrange(0, done) =~= records);
    items
}

/// The views of what the laboratories printed.
pub open spec fn output_texts(outputs: Seq<Option<String>>) -> Seq<Option<Seq<char>>> {
    outputs.map_values(|o: Option<String>| text::text_option(o))
}

/// The items of all laboratories, given what the find command printed in each. A laboratory
/// that failed (`None`) is skipped, not fatal.
pub fn collect_skills(labs: &Vec<(String, String)>, outputs: &Vec<Option<String>>) -> (r: Vec<
    SkillItem,
>)
    requires
        labs.len() == outputs.len(),
    ensures
        item_views(r@) == all_skills(common::pair_texts(labs@), output_texts(outputs@)),
{
    let ghost ls = common::pair_texts(labs@);
    let ghost os = output_texts(outputs@);
    let mut items: Vec<SkillItem> = Vec::new();
    let mut i: usize = 0;
    assert(item_views(items@) =~= all_skills(ls.subrange(0, 0), os.subrange(0, 0)));
    while i < labs.len()
        invariant
            i <= labs.len(),
            labs.len() == outputs.len(),
            ls == common::pair_texts(labs@),
            os == output_texts(outputs@),
            item_views(items@) == all_skills(ls.subrange(0, i as int), os.subrange(0, i as int)),
        decreases labs.len() - i,
    {
        let ghost before = item_views(items@);
        assert(ls.subrange(0, i + 1).drop_last() =~= ls.subrange(0, i as int));
        assert(os.subrange(0, i + 1).drop_last() =~= os.subrange(0, i as int));
        assert(ls.subrange(0, i + 1).last() == (labs@[i as int].0@, labs@[i as int].1@));
        assert(os.subrange(0, i + 1).last() == text::text_option(outputs@[i as int]));
        match &outputs[i] {
            Some(stdout) => {
                let mut found = parse_skills(labs[i].0.as_str(), stdout.as_str());
                let ghost more = found@;
                items.append(&mut found);
                assert(item_views(items@) =~= before + item_views(more));
            },
            None => {
                assert(before + Seq::<SkillItemView>::empty() =~= before);
            },
        }
        i = i + 1;
    }
    assert(ls.subrange(0, i as int) =~= ls);
    assert(os.subrange(0, i as int) =~= os);
    items
}

// ---------------------------------------------------------------------------------------
// Laws
// ---------------------------------------------------------------------------------------

/// Records framed as the find command prints them.
pub open spec fn framed(records: Seq<(Seq<char>, Seq<char>)>) -> Seq<char>
    decreases records.len(),
{
    if records.len() == 0 {
        Seq::empty()
    } else {
        seq![RS] + records[0].0 + seq![RS] + records[0].1 + framed(
            records.subrange(1, records.len() as int),
        )
    }
}

/// No path and no content holds the separator.
pub open spec fn separator_free(records: Seq<(Seq<char>, Seq<char>)>) -> bool {
    forall|i: int|
        0 <= i < records.len() ==> !(#[trigger] records[i]).0.contains(RS)
            && !records[i].1.contains(RS)
}

/// The paths and contents of `records`, one after the other.
spec fn flat(records: Seq<(Seq<char>, Seq<char>)>) -> Seq<Seq<char>> {
    Seq::new(
        2 * records.len(),
        |i: int|
            if i % 2 == 0 {
                records[i / 2].0
            } else {
                records[i / 2].1
            },
    )
}

/// Cutting at the first separator.
proof fn lemma_pieces_step(head: Seq<char>, tail: Seq<char>)
    requires
        !head.contains(RS),
    ensures
        text::pieces(head + seq![RS] + tail, RS) == seq![head] + text::pieces(tail, RS),
{
    let s = head + seq![RS] + tail;
    assert forall|i: int| 0 <= i < head.len() implies s[i] != RS by {
        assert(s[i] == head[i]);
        assert(head.contains(head[i]));
    }
    text::lemma_first_position_is(s, RS, head.len() as int);
    assert(s.subrange(0, head.len() as int) =~= head);
    assert(s.subrange(head.len() as int + 1, s.len() as int) =~= tail);
}

/// Cutting a framing gives its paths and contents back.
proof fn lemma_pieces_of_framed(head: Seq<char>, records: Seq<(Seq<char>, Seq<char>)>)
    requires
        !head.contains(RS),
        separator_free(records),
    ensures
        text::pieces(head + framed(records), RS) == seq![head] + flat(records),
    decreases records.len(),
{
    if records.len() == 0 {
        assert(head + framed(records) =~= head);
        text::lemma_first_position(head, RS);
        assert(seq![head] + flat(records) =~= seq![head]);
    } else {
        let (path, content) = records[0];
        let rest = records.subrange(1, records.len() as int);
        assert forall|i: int| 0 <= i < rest.len() implies !(#[trigger] rest[i]).0.contains(RS)
            && !rest[i].1.contains(RS) by {
            assert(rest[i] == records[i + 1]);
        }
        let tail = path + seq![RS] + (content + framed(rest));
        assert(head + framed(records) =~= head + seq![RS] + tail);
        lemma_pieces_step(head, tail);
        lemma_pieces_step(path, content + framed(rest));
        lemma_pieces_of_framed(content, rest);
        assert forall|i: int| 0 <= i < flat(records).len() implies flat(records)[i] == (seq![path]
            + (seq![content] + flat(rest)))[i] by {
            if i >= 2 {
                assert((i - 2) / 2 == i / 2 - 1);
                assert((i - 2) % 2 == i % 2);
            }
        }
        assert(flat(records) =~= seq![path] + (seq![content] + flat(rest)));
    }
}

/// Splitting on the separator is unambiguous: from records framed as the find command frames
/// them, behind any noise, exactly the items of those records are listed, in order and with
/// duplicates kept.
pub proof fn law_framed_records_are_listed(
    lab_id: Seq<char>,
    noise: Seq<char>,
    records: Seq<(Seq<char>, Seq<char>)>,
)
    requires
        !noise.contains(RS),
        separator_free(records),
    ensures
        listed_skills(lab_id, noise + framed(records)) == skills_of(lab_id, records),
{
    lemma_pieces_of_framed(noise, records);
    let chunks = text::pieces(noise + framed(records), RS);
    let f = flat(records);
    assert(chunks.subrange(1, chunks.len() as int) =~= f);
    assert(f.len() == 2 * records.len());
    assert forall|i: int| 0 <= i < records.len() implies paired(f)[i] == records[i] by {
        assert(f[2 * i] == records[i].0);
        assert(f[2 * i + 1] == records[i].1);
    }
    assert(paired(f) =~= records);
}

/// Every listed item carries the id of its laboratory, a name that is not empty, and a
/// folder that is not empty.
pub proof fn law_listed_items_are_named(lab_id: Seq<char>, stdout: Seq<char>, i: int)
    requires
        0 <= i < listed_skills(lab_id, stdout).len(),
    ensures
        listed_skills(lab_id, stdout)[i].laboratory_id == lab_id,
        listed_skills(lab_id, stdout)[i].name.len() > 0,
        listed_skills(lab_id, stdout)[i].path.len() > 0,
{
    lemma_items_named(lab_id, records_in(stdout), i);
}

proof fn lemma_items_named(lab_id: Seq<char>, records: Seq<(Seq<char>, Seq<char>)>, i: int)
    requires
        0 <= i < skills_of(lab_id, records).len(),
    ensures
        skills_of(lab_id, records)[i].laboratory_id == lab_id,
        skills_of(lab_id, records)[i].name.len() > 0,
        skills_of(lab_id, records)[i].path.len() > 0,
    decreases records.len(),
{
    let before = skills_of(lab_id, records.drop_last());
    if i < before.len() {
        lemma_items_named(lab_id, records.drop_last(), i);
    } else {
        let (path, content) = records.last();
        text::lemma_last_position(text::trimmed(path), '/');
        frontmatter::law_fields_are_not_empty(content);
    }
}

/// What is listed is scoped to the laboratories that were searched: every item carries the
/// id of one of them, and that one printed something.
pub proof fn law_items_are_scoped(
    labs: Seq<(Seq<char>, Seq<char>)>,
    outputs: Seq<Option<Seq<char>>>,
    i: int,
)
    requires
        labs.len() == outputs.len(),
        0 <= i < all_skills(labs, outputs).len(),
    ensures
        exists|l: int|
            0 <= l < labs.len() && (#[trigger] labs[l]).0 == all_skills(labs, outputs)[i].laboratory_id
                && outputs[l] is Some,
    decreases labs.len(),
{
    let before = all_skills(labs.drop_last(), outputs.drop_last());
    if i < before.len() {
        law_items_are_scoped(labs.drop_last(), outputs.drop_last(), i);
        let l = choose|l: int|
            0 <= l < labs.drop_last().len() && (#[trigger] labs.drop_last()[l]).0
                == before[i].laboratory_id && outputs.drop_last()[l] is Some;
        assert(labs[l] == labs.drop_last()[l]);
        assert(outputs[l] == outputs.drop_last()[l]);
    } else {
        let stdout = outputs.last()->0;
        law_listed_items_are_named(labs.last().0, stdout, i - before.len());
        assert(labs[labs.len() - 1] == labs.last());
    }
}

/// Every named skill is listed: a record that lies in a folder and is named by its
/// frontmatter gives one of the items.
pub proof fn law_every_named_skill_is_listed(
    lab_id: Seq<char>,
    records: Seq<(Seq<char>, Seq<char>)>,
    k: int,
)
    requires
        0 <= k < records.len(),
        folder(records[k].0) is Some,
        frontmatter::frontmatter_of(records[k].1).name is Some,
    ensures
        skill_of(lab_id, records[k].0, records[k].1) matches Some(item) && skills_of(
            lab_id,
            records,
        ).contains(item),
    decreases records.len(),
{
    let item = skill_of(lab_id, records[k].0, records[k].1)->0;
    let before = skills_of(lab_id, records.drop_last());
    let all = skills_of(lab_id, records);
    if k < records.len() - 1 {
        law_every_named_skill_is_listed(lab_id, records.drop_last(), k);
        let i = choose|i: int| 0 <= i < before.len() && before[i] == item;
        assert(all[i] == item);
    } else {
        assert(all.last() == item);
    }
}

/// What one laboratory lists is listed whatever the others print, and also where some of them
/// fail.
pub proof fn law_every_laboratory_is_listed(
    labs: Seq<(Seq<char>, Seq<char>)>,
    outputs: Seq<Option<Seq<char>>>,
    l: int,
    k: int,
)
    requires
        labs.len() == outputs.len(),
        0 <= l < labs.len(),
        outputs[l] is Some,
        0 <= k < listed_skills(labs[l].0, outputs[l]->0).len(),
    ensures
        all_skills(labs, outputs).contains(listed_skills(labs[l].0, outputs[l]->0)[k]),
    decreases labs.len(),
{
    let item = listed_skills(labs[l].0, outputs[l]->0)[k];
    let before = all_skills(labs.drop_last(), outputs.drop_last());
    let all = all_skills(labs, outputs);
    if l < labs.len() - 1 {
        law_every_laboratory_is_listed(labs.drop_last(), outputs.drop_last(), l, k);
        let i = choose|i: int| 0 <= i < before.len() && before[i] == item;
        assert(all[i] == item);
    } else {
        assert(all[before.len() + k] == item);
    }
}

/// The folder of a file is what stands before the last `/` of its path, whole, whatever white
/// space stands around the path. A file at the root of the filesystem, and a bare name, have
/// none.
pub proof fn law_folder_stands_before_the_last_slash(
    before: Seq<char>,
    dir: Seq<char>,
    name: Seq<char>,
    after: Seq<char>,
)
    requires
        text::all_white(before),
        text::all_white(after),
        !name.contains('/'),
        text::bare(dir + seq!['/'] + name),
    ensures
        dir.len() > 0 ==> folder(before + (dir + seq!['/'] + name) + after) == Some(dir),
        dir.len() == 0 ==> folder(before + (dir + seq!['/'] + name) + after) is None,
        text::bare(name) ==> folder(before + name + after) is None,
{
    let p = dir + seq!['/'] + name;
    text::law_trimming_takes_the_ends_off(before, p, after);
    if text::bare(name) {
        text::law_trimming_takes_the_ends_off(before, name, after);
    }
    text::law_last_cut(dir, '/', name);
    let n = dir.len() as int;
    assert forall|i: int| n < i < p.len() implies p[i] != '/' by {
        assert(p[i] == name[i - n - 1]);
    }
    text::lemma_last_position_is(p, '/', n);
    assert(p.subrange(0, n) =~= dir);
    text::lemma_last_position_is(name, '/', -1);
}

/// The item of a listed file carries the laboratory, the folder, and, each independently of
/// the others, the name, the description and the guidance that the file's frontmatter sets,
/// and none that it does not set. A file is listed if and only if it lies in a folder and its
/// frontmatter names it.
pub proof fn law_item_carries_what_its_file_sets(
    lab_id: Seq<char>,
    path: Seq<char>,
    content: Seq<char>,
)
    ensures
        ({
            let fm = frontmatter::frontmatter_of(content);
            match skill_of(lab_id, path, content) {
                Some(item) => {
                    &&& item.laboratory_id == lab_id
                    &&& Some(item.path) == folder(path)
                    &&& Some(item.name) == fm.name
                    &&& item.description == fm.description
                    &&& item.when_to_use == fm.when_to_use
                },
                None => folder(path) is None || fm.name is None,
            }
        }),
{
}

/// One file's item depends on nothing but that file's own fields: two files that set the same
/// description give items with the same description, whatever else they set, and so for each
/// field.
pub proof fn law_fields_of_an_item_are_independent(
    lab_id: Seq<char>,
    path: Seq<char>,
    content: Seq<char>,
    other: Seq<char>,
)
    requires
        folder(path) is Some,
        frontmatter::frontmatter_of(content).name is Some,
        frontmatter::frontmatter_of(other).name is Some,
    ensures
        ({
            let a = frontmatter::frontmatter_of(content);
            let b = frontmatter::frontmatter_of(other);
            let x = skill_of(lab_id, path, content);
            let y = skill_of(lab_id, path, other);
            &&& x is Some && y is Some
            &&& a.name == b.name <==> x->0.name == y->0.name
            &&& a.description == b.description <==> x->0.description == y->0.description
            &&& a.when_to_use == b.when_to_use <==> x->0.when_to_use == y->0.when_to_use
            &&& x->0.path == y->0.path
        }),
{
}

/// The items of records are those of each record, one by one and in order: a listed record
/// gives one item, and any other gives none.
pub proof fn law_items_follow_the_records(
    lab_id: Seq<char>,
    a: Seq<(Seq<char>, Seq<char>)>,
    record: (Seq<char>, Seq<char>),
    b: Seq<(Seq<char>, Seq<char>)>,
)
    ensures
        skills_of(lab_id, a + b) == skills_of(lab_id, a) + skills_of(lab_id, b),
        match skill_of(lab_id, record.0, record.1) {
            Some(item) => skills_of(lab_id, seq![record]) == seq![item],
            None => skills_of(lab_id, seq![record]) == Seq::<SkillItemView>::empty(),
        },
    decreases b.len(),
{
    assert(seq![record].drop_last() =~= Seq::<(Seq<char>, Seq<char>)>::empty());
    assert(skills_of(lab_id, Seq::<(Seq<char>, Seq<char>)>::empty()) =~= Seq::empty());
    assert(seq![record].last() == record);
    assert(skills_of(lab_id, seq![record]) =~= match skill_of(lab_id, record.0, record.1) {
        Some(item) => seq![item],
        None => Seq::empty(),
    });
    if b.len() == 0 {
        assert(a + b =~= a);
        assert(skills_of(lab_id, a) + skills_of(lab_id, b) =~= skills_of(lab_id, a));
    } else {
        law_items_follow_the_records(lab_id, a, record, b.drop_last());
        assert((a + b).drop_last() =~= a + b.drop_last());
        assert((a + b).last() == b.last());
        assert(skills_of(lab_id, a + b) =~= skills_of(lab_id, a) + skills_of(lab_id, b));
    }
}

/// A path at the end of the output, with no content behind it, counts as a file without
/// content.
pub proof fn law_last_path_may_have_no_content(
    lab_id: Seq<char>,
    noise: Seq<char>,
    records: Seq<(Seq<char>, Seq<char>)>,
    path: Seq<char>,
)
    requires
        !noise.contains(RS),
        separator_free(records),
        !path.contains(RS),
    ensures
        listed_skills(lab_id, noise + framed(records) + seq![RS] + path) == skills_of(
            lab_id,
            records.push((path, Seq::empty())),
        ),
{
    lemma_pieces_before_path(noise, records, path);
    let stdout = noise + framed(records) + seq![RS] + path;
    let chunks = text::pieces(stdout, RS);
    let f = flat(records).push(path);
    assert(chunks.subrange(1, chunks.len() as int) =~= f);
    let all = records.push((path, Seq::<char>::empty()));
    assert(f.len() == 2 * records.len() + 1);
    assert(paired(f).len() == all.len());
    assert forall|i: int| 0 <= i < all.len() implies paired(f)[i] == all[i] by {
        if i < records.len() {
            assert(f[2 * i] == flat(records)[2 * i]);
            assert(f[2 * i + 1] == flat(records)[2 * i + 1]);
            assert(flat(records)[2 * i] == records[i].0);
            assert(flat(records)[2 * i + 1] == records[i].1);
        } else {
            assert(f[2 * i] == path);
        }
    }
    assert(paired(f) =~= all);
}

/// Cutting a framing with one more path behind it.
proof fn lemma_pieces_before_path(
    head: Seq<char>,
    records: Seq<(Seq<char>, Seq<char>)>,
    path: Seq<char>,
)
    requires
        !head.contains(RS),
        separator_free(records),
        !path.contains(RS),
    ensures
        text::pieces(head + framed(records) + seq![RS] + path, RS) == seq![head] + flat(
            records,
        ).push(path),
    decreases records.len(),
{
    let end = seq![RS] + path;
    let s = head + framed(records) + seq![RS] + path;
    if records.len() == 0 {
        assert(s =~= head + seq![RS] + path);
        text::law_split_at_each_separator(head, RS, path);
        text::law_split_at_each_separator(path, RS, path);
        assert(flat(records) =~= Seq::<Seq<char>>::empty());
        assert(seq![head] + flat(records).push(path) =~= seq![head] + seq![path]);
    } else {
        let (first, content) = records[0];
        let rest = records.subrange(1, records.len() as int);
        assert forall|i: int| 0 <= i < rest.len() implies !(#[trigger] rest[i]).0.contains(RS)
            && !rest[i].1.contains(RS) by {
            assert(rest[i] == records[i + 1]);
        }
        let inner = content + framed(rest) + seq![RS] + path;
        let tail = first + seq![RS] + inner;
        assert(s =~= head + seq![RS] + tail);
        text::law_split_at_each_separator(head, RS, tail);
        text::law_split_at_each_separator(first, RS, inner);
        lemma_pieces_before_path(content, rest, path);
        let f = flat(records);
        let g = seq![first] + (seq![content] + flat(rest));
        assert forall|i: int| 0 <= i < f.len() implies f[i] == g[i] by {
            if i >= 2 {
                assert((i - 2) / 2 == i / 2 - 1);
                assert((i - 2) % 2 == i % 2);
            }
        }
        assert(f =~= g);
        assert(seq![head] + f.push(path) =~= seq![head] + (seq![first] + (seq![content] + flat(
            rest,
        ).push(path))));
    }
}

/// The items of all laboratories are those of each laboratory, one by one and in order, and a
/// laboratory without output gives none.
pub proof fn law_laboratories_are_listed_in_order(
    labs: Seq<(Seq<char>, Seq<char>)>,
    outputs: Seq<Option<Seq<char>>>,
    lab: (Seq<char>, Seq<char>),
    output: Option<Seq<char>>,
)
    requires
        labs.len() == outputs.len(),
    ensures
        all_skills(labs.push(lab), outputs.push(output)) == match output {
            Some(stdout) => all_skills(labs, outputs) + listed_skills(lab.0, stdout),
            None => all_skills(labs, outputs),
        },
        all_skills(Seq::empty(), Seq::empty()) == Seq::<SkillItemView>::empty(),
{
    assert(labs.push(lab).drop_last() =~= labs);
    assert(outputs.push(output).drop_last() =~= outputs);
    let none = Seq::<SkillItemView>::empty();
    assert(all_skills(labs, outputs) + none =~= all_skills(labs, outputs));
}

/// What is said of items and outputs is said of each one's fields.
pub proof fn law_views_hold_the_fields(items: Seq<SkillItem>, outputs: Seq<Option<String>>)
    ensures
        item_views(items).len() == items.len(),
        forall|i: int|
            0 <= i < items.len() ==> ({
                let v = #[trigger] item_views(items)[i];
                &&& v.laboratory_id == items[i].laboratory_id@
                &&& v.name == items[i].name@
                &&& v.description == text::text_option(items[i].description)
                &&& v.when_to_use == text::text_option(items[i].when_to_use)
                &&& v.path == items[i].path@
            }),
        output_texts(outputs).len() == outputs.len(),
        forall|i: int|
            0 <= i < outputs.len() ==> #[trigger] output_texts(outputs)[i] == text::text_option(
                outputs[i],
            ),
{
}

/// The command searches the whole filesystem but for the pseudo-filesystems, finds the files
/// in any case, and frames each path and content by the separator.
pub proof fn law_find_command_frames_every_file()
    ensures
        FIND_CMD@
            == "find / \\( -path /proc -o -path /sys -o -path /dev \\) -prune -o -type f -iname 'SKILL.md' -print 2>/dev/null | while IFS= read -r f; do printf '\\036%s\\036' \"$f\"; cat \"$f\" 2>/dev/null; done"@,
{
}

}
