//! The frontmatter of a `SKILL.md`, and what stands behind it.

use vstd::prelude::*;

use crate::text;

verus! {

/// The recognized `SKILL.md` frontmatter fields. All optional; unknown keys are ignored.
pub struct Frontmatter {
    pub name: Option<String>,
    pub description: Option<String>,
    pub when_to_use: Option<String>,
}

/// What a [`Frontmatter`] holds.
pub struct FrontmatterView {
    pub name: Option<Seq<char>>,
    pub description: Option<Seq<char>>,
    pub when_to_use: Option<Seq<char>>,
}

impl View for Frontmatter {
    type V = FrontmatterView;

    open spec fn view(&self) -> FrontmatterView {
        FrontmatterView {
            name: text::text_option(self.name),
            description: text::text_option(self.description),
            when_to_use: text::text_option(self.when_to_use),
        }
    }
}

impl FrontmatterView {
    /// No field is set.
    pub open spec fn none() -> FrontmatterView {
        FrontmatterView { name: None, description: None, when_to_use: None }
    }
}

impl Default for Frontmatter {
    /// A frontmatter with no field set.
    fn default() -> (r: Frontmatter)
        ensures
            r@ == FrontmatterView::none(),
    {
        Frontmatter { name: None, description: None, when_to_use: None }
    }
}

// ---------------------------------------------------------------------------------------
// What a file means
// ---------------------------------------------------------------------------------------

/// The line that opens and closes a frontmatter.
pub open spec fn fence(line: Seq<char>) -> bool {
    line == "---"@
}

/// The index of the first fence among `lines`, or their number if there is none.
pub open spec fn first_fence(lines: Seq<Seq<char>>) -> int
    decreases lines.len(),
{
    if lines.len() == 0 || fence(lines[0]) {
        0
    } else {
        1 + first_fence(lines.subrange(1, lines.len() as int))
    }
}

/// The lines behind the first one.
pub open spec fn later_lines(content: Seq<char>) -> Seq<Seq<char>> {
    text::lines_of(content).subrange(1, text::lines_of(content).len() as int)
}

/// The first line is a fence, and so is a later one.
pub open spec fn has_frontmatter(content: Seq<char>) -> bool {
    &&& text::lines_of(content).len() > 0
    &&& fence(text::lines_of(content)[0])
    &&& first_fence(later_lines(content)) < later_lines(content).len()
}

/// The lines between the two fences.
pub open spec fn header_lines(content: Seq<char>) -> Seq<Seq<char>> {
    later_lines(content).subrange(0, first_fence(later_lines(content)))
}

/// The lines behind the closing fence.
pub open spec fn body_lines(content: Seq<char>) -> Seq<Seq<char>> {
    later_lines(content).subrange(
        first_fence(later_lines(content)) + 1,
        later_lines(content).len() as int,
    )
}

/// `s` without one pair of equal quotes around it.
pub open spec fn unquoted(s: Seq<char>) -> Seq<char> {
    if s.len() >= 2 && s[0] == s.last() && (s[0] == '"' || s[0] == '\'') {
        s.subrange(1, s.len() - 1)
    } else {
        s
    }
}

/// The key and the value of a line `key: value`, or `None` where the line has no colon or
/// an empty value.
pub open spec fn entry(line: Seq<char>) -> Option<(Seq<char>, Seq<char>)> {
    match text::cut_first(line, ':') {
        Some(kv) => {
            let value = unquoted(text::trimmed(kv.1));
            if value.len() == 0 {
                None
            } else {
                Some((text::trimmed(kv.0), value))
            }
        },
        None => None,
    }
}

/// The value that the last line with the key `key` gives it.
pub open spec fn field(lines: Seq<Seq<char>>, key: Seq<char>) -> Option<Seq<char>>
    decreases lines.len(),
{
    if lines.len() == 0 {
        None
    } else {
        match entry(lines.last()) {
            Some(kv) if kv.0 == key => Some(kv.1),
            _ => field(lines.drop_last(), key),
        }
    }
}

/// The fields that header lines set.
pub open spec fn fields(lines: Seq<Seq<char>>) -> FrontmatterView {
    FrontmatterView {
        name: field(lines, "name"@),
        description: field(lines, "description"@),
        when_to_use: field(lines, "when_to_use"@),
    }
}

/// The frontmatter fields of a file.
pub open spec fn frontmatter_of(content: Seq<char>) -> FrontmatterView {
    if has_frontmatter(content) {
        fields(header_lines(content))
    } else {
        FrontmatterView::none()
    }
}

/// The body of a file: the lines behind the frontmatter, or all of it if there is none.
pub open spec fn body_of(content: Seq<char>) -> Seq<char> {
    if has_frontmatter(content) {
        text::joined(body_lines(content), "\n"@)
    } else {
        content
    }
}

/// What loading a file hands to the agent: its body, trimmed, unless nothing is left.
pub open spec fn skill_text(content: Seq<char>) -> Option<Seq<char>> {
    let body = text::trimmed(body_of(content));
    if body.len() == 0 {
        None
    } else {
        Some(body)
    }
}

// ---------------------------------------------------------------------------------------
// Functions
// ---------------------------------------------------------------------------------------

/// `first_fence` is the least index of a fence.
pub proof fn lemma_first_fence_is(lines: Seq<Seq<char>>, p: int)
    requires
        0 <= p <= lines.len(),
        forall|i: int| 0 <= i < p ==> !fence(#[trigger] lines[i]),
        p < lines.len() ==> fence(lines[p]),
    ensures
        first_fence(lines) == p,
    decreases lines.len(),
{
    if p > 0 {
        assert(!fence(lines[0]));
        let rest = lines.subrange(1, lines.len() as int);
        assert forall|i: int| 0 <= i < p - 1 implies !fence(#[trigger] rest[i]) by {
            assert(rest[i] == lines[i + 1]);
        }
        lemma_first_fence_is(rest, p - 1);
    }
}

/// Split a `SKILL.md` into its frontmatter fields and its body. A file has frontmatter only
/// if its first line is exactly `---` and a later line is exactly `---`; the body is
/// everything after that closing fence. Otherwise there is no frontmatter and the whole
/// content is the body.
///
/// Only simple single-line scalar values are supported (`key: value`, optional surrounding
/// quotes). Empty values are treated as absent.
pub fn parse_frontmatter(content: &str) -> (r: (Frontmatter, String))
    ensures
        r.0@ == frontmatter_of(content@),
        r.1@ == body_of(content@),
{
    let all = text::lines(content);
    let ghost ls = text::lines_of(content@);
    if all.len() == 0 || !text::same_text(all[0].as_str(), "---") {
        assert(all.len() > 0 ==> ls[0] == all@[0]@);
        return (Frontmatter::default(), content.to_string());
    }
    assert(ls[0] == all@[0]@);
    let ghost later = later_lines(content@);
    let n: usize = all.len();
    let mut close: usize = 1;
    while close < n && !text::same_text(all[close].as_str(), "---")
        invariant
            1 <= close <= n,
            n == all.len(),
            ls == text::texts(all@),
            later == ls.subrange(1, n as int),
            forall|i: int| 0 <= i < close - 1 ==> !fence(#[trigger] later[i]),
        decreases n - close,
    {
        assert(later[close - 1] == all@[close as int]@);
        close = close + 1;
    }
    proof {
        if close < n {
            assert(later[close - 1] == all@[close as int]@);
        }
        lemma_first_fence_is(later, close - 1);
    }
    // No closing fence: keep the whole file as body.
    if close == n {
        return (Frontmatter::default(), content.to_string());
    }
    let ghost header = header_lines(content@);
    let mut fm: Frontmatter = Frontmatter::default();
    let mut i: usize = 1;
    assert(header.subrange(0, 0) == Seq::<Seq<char>>::empty());
    while i < close
        invariant
            1 <= i <= close < n,
            n == all.len(),
            ls == text::texts(all@),
            later == ls.subrange(1, n as int),
            header == later.subrange(0, close - 1),
            fm@ == fields(header.subrange(0, i - 1)),
        decreases close - i,
    {
        let ghost before = header.subrange(0, i - 1);
        let ghost upto = header.subrange(0, i as int);
        assert(upto.drop_last() == before);
        assert(upto.last() == all@[i as int]@);
        if let Some((key, value)) = text::split_once(all[i].as_str(), ':') {
            let value = strip_quotes(text::trim(value));
            if !value.is_empty() {
                let key = text::trim(key);
                proof {
                    assert(entry(upto.last()) == Some((key@, value@)));
                    reveal_strlit("name");
                    reveal_strlit("description");
                    reveal_strlit("when_to_use");
                    assert("name"@.len() == 4);
                    assert("description"@.len() == 11);
                    assert("when_to_use"@.len() == 11);
                    assert("description"@[0] != "when_to_use"@[0]);
                }
                if text::same_text(key, "name") {
                    fm.name = Some(value.to_string());
                } else if text::same_text(key, "description") {
                    fm.description = Some(value.to_string());
                } else if text::same_text(key, "when_to_use") {
                    fm.when_to_use = Some(value.to_string());
                }
            }
        }
        i = i + 1;
    }
    assert(header.subrange(0, close - 1) == header);
    let body = text::join_from(&all, close + 1, "\n");
    assert(body_lines(content@) == text::texts(all@).subrange(close + 1, n as int));
    (fm, body)
}

/// Strip one matching pair of surrounding single or double quotes, if present.
pub fn strip_quotes(s: &str) -> (r: &str)
    ensures
        r@ == unquoted(s@),
{
    let v = text::chars_of(s);
    let n: usize = v.len();
    if n >= 2 && v[0] == v[n - 1] && (v[0] == '"' || v[0] == '\'') {
        s.substring_char(1, n - 1)
    } else {
        s
    }
}

/// The body of a `SKILL.md` (frontmatter stripped), trimmed, or `None` if it is empty.
pub fn skill_body(content: &str) -> (r: Option<String>)
    ensures
        text::text_option(r) == skill_text(content@),
{
    let (_, body) = parse_frontmatter(content);
    let body = text::trim(body.as_str());
    if body.is_empty() {
        None
    } else {
        Some(body.to_string())
    }
}

// ---------------------------------------------------------------------------------------
// Laws
// ---------------------------------------------------------------------------------------

/// A file whose first line is not a fence, or in which no later line is one, has no
/// frontmatter: no field is set and the body is the whole file, unchanged.
pub proof fn law_plain_file_is_its_body(content: Seq<char>)
    requires
        lines_of_none_fenced(content),
    ensures
        frontmatter_of(content) == FrontmatterView::none(),
        body_of(content) == content,
{
    if has_frontmatter(content) {
        let later = later_lines(content);
        lemma_first_fence(later);
        let p = first_fence(later);
        assert(later[p] == text::lines_of(content)[p + 1]);
    }
}

/// The first line of a file is not a fence, or no later line is one.
pub open spec fn lines_of_none_fenced(content: Seq<char>) -> bool {
    let ls = text::lines_of(content);
    ||| ls.len() == 0
    ||| !fence(ls[0])
    ||| forall|i: int| 1 <= i < ls.len() ==> !fence(#[trigger] ls[i])
}

proof fn lemma_first_fence(lines: Seq<Seq<char>>)
    ensures
        0 <= first_fence(lines) <= lines.len(),
        first_fence(lines) < lines.len() ==> fence(lines[first_fence(lines)]),
    decreases lines.len(),
{
    if lines.len() > 0 && !fence(lines[0]) {
        lemma_first_fence(lines.subrange(1, lines.len() as int));
    }
}

proof fn lemma_field_not_empty(lines: Seq<Seq<char>>, key: Seq<char>)
    ensures
        field(lines, key) matches Some(v) ==> v.len() > 0,
    decreases lines.len(),
{
    if lines.len() > 0 {
        lemma_field_not_empty(lines.drop_last(), key);
    }
}

/// Empty values are absent: a field that is set is not empty.
pub proof fn law_fields_are_not_empty(content: Seq<char>)
    ensures
        frontmatter_of(content).name matches Some(v) ==> v.len() > 0,
        frontmatter_of(content).description matches Some(v) ==> v.len() > 0,
        frontmatter_of(content).when_to_use matches Some(v) ==> v.len() > 0,
{
    lemma_field_not_empty(header_lines(content), "name"@);
    lemma_field_not_empty(header_lines(content), "description"@);
    lemma_field_not_empty(header_lines(content), "when_to_use"@);
}

/// A line that sets another key, or sets none, leaves a field as it was: unknown keys are
/// ignored.
pub proof fn law_other_lines_are_ignored(
    lines: Seq<Seq<char>>,
    line: Seq<char>,
    key: Seq<char>,
)
    requires
        entry(line) matches Some(kv) ==> kv.0 != key,
    ensures
        field(lines.push(line), key) == field(lines, key),
{
    assert(lines.push(line).drop_last() =~= lines);
}

/// One pair of quotes is stripped and no more: what stood between two equal quotes comes
/// back as it is, further quotes included.
pub proof fn law_one_pair_of_quotes_is_stripped(s: Seq<char>, quote: char)
    requires
        quote == '"' || quote == '\'',
    ensures
        unquoted(seq![quote] + s + seq![quote]) == s,
{
    let q = seq![quote] + s + seq![quote];
    assert(q.subrange(1, q.len() - 1) =~= s);
}

/// A file written as a fence, header lines of which none is a fence, a fence, and a body has
/// the fields of its header lines, and none of the header is left in its body. A body
/// without carriage returns that does not end with a line feed comes back as it was written.
pub proof fn law_frontmatter_is_split_off(header: Seq<char>, body: Seq<char>)
    requires
        header.len() == 0 || header.last() == '\n',
        forall|i: int|
            0 <= i < text::lines_of(header).len() ==> !fence(
                #[trigger] text::lines_of(header)[i],
            ),
    ensures
        ({
            let content = "---\n"@ + header + "---\n"@ + body;
            &&& has_frontmatter(content)
            &&& frontmatter_of(content) == fields(text::lines_of(header))
            &&& body_of(content) == text::joined(text::lines_of(body), "\n"@)
            &&& !body.contains('\r') && (body.len() > 0 ==> body.last() != '\n') ==> body_of(
                content,
            ) == body
        }),
{
    reveal_strlit("---\n");
    reveal_strlit("---");
    reveal_strlit("\n");
    let dashes = "---\n"@;
    let content = dashes + header + dashes + body;
    let hs = text::lines_of(header);
    let bs = text::lines_of(body);
    // The fence with its line feed is one line.
    text::lemma_first_position_is(dashes, '\n', 3);
    assert(dashes.subrange(0, 3) =~= "---"@);
    assert(dashes.subrange(4, 4) =~= Seq::<char>::empty());
    assert(text::lines_of(dashes.subrange(4, 4)) =~= Seq::<Seq<char>>::empty());
    assert(text::lines_of(dashes) =~= seq!["---"@]);
    // The lines of the whole file.
    assert(content =~= dashes + (header + (dashes + body)));
    text::lemma_lines_of_concat(dashes, header + (dashes + body));
    text::lemma_lines_of_concat(header, dashes + body);
    text::lemma_lines_of_concat(dashes, body);
    assert(text::lines_of(content) =~= seq!["---"@] + (hs + (seq!["---"@] + bs)));
    let later = later_lines(content);
    assert(later =~= hs + (seq!["---"@] + bs));
    assert forall|i: int| 0 <= i < hs.len() implies !fence(#[trigger] later[i]) by {
        assert(later[i] == hs[i]);
    }
    lemma_first_fence_is(later, hs.len() as int);
    assert(header_lines(content) =~= hs);
    assert(body_lines(content) =~= bs);
    if !body.contains('\r') && (body.len() > 0 ==> body.last() != '\n') {
        text::lemma_lines_join_back(body);
        assert("\n"@ =~= seq!['\n']);
    }
}

/// What is loaded from a file is not empty and starts and ends with no white space.
pub proof fn law_loaded_text_is_trimmed(content: Seq<char>)
    ensures
        skill_text(content) matches Some(t) ==> t.len() > 0 && !text::white_space(t[0])
            && !text::white_space(t.last()),
{
    text::lemma_trimmed(body_of(content));
}

/// What is loaded is the whole body but for white space at its ends: the body is some white
/// space, then the loaded text, then some white space. Nothing is loaded only where the body
/// is all white space.
pub proof fn law_loaded_text_is_the_whole_body(content: Seq<char>) -> (ends: (
    Seq<char>,
    Seq<char>,
))
    ensures
        text::all_white(ends.0),
        text::all_white(ends.1),
        match skill_text(content) {
            Some(t) => {
                &&& body_of(content) == ends.0 + t + ends.1
                &&& t.len() > 0
                &&& text::bare(t)
            },
            None => text::all_white(body_of(content)),
        },
{
    let body = body_of(content);
    let ends = text::law_white_space_is_trimmed_off(body);
    if text::trimmed(body).len() == 0 {
        assert(body =~= ends.0 + ends.1);
        assert forall|i: int| 0 <= i < body.len() implies text::white_space(
            #[trigger] body[i],
        ) by {
            if i < ends.0.len() {
                assert(body[i] == ends.0[i]);
            } else {
                assert(body[i] == ends.1[i - ends.0.len()]);
            }
        }
    }
    ends
}

/// Two files with the same body load the same text, whatever their frontmatter says, and white
/// space around a body makes no difference.
pub proof fn law_loading_looks_at_the_body_alone(
    content: Seq<char>,
    other: Seq<char>,
    before: Seq<char>,
    t: Seq<char>,
    after: Seq<char>,
)
    requires
        text::all_white(before),
        text::all_white(after),
        text::bare(t),
        body_of(content) == before + t + after,
        body_of(other) == t,
    ensures
        skill_text(content) == skill_text(other),
        t.len() > 0 ==> skill_text(content) == Some(t),
        t.len() == 0 ==> skill_text(content) is None,
{
    let none = Seq::<char>::empty();
    text::law_trimming_takes_the_ends_off(before, t, after);
    text::law_trimming_takes_the_ends_off(none, t, none);
    assert(none + t + none =~= t);
}

/// The frontmatter of a file lies between a first line that is `---` and the next line that
/// is: the lines between are its header, and all lines behind are its body, joined by line
/// feeds.
pub proof fn law_frontmatter_lies_between_fences(content: Seq<char>, close: int)
    requires
        1 <= close < text::lines_of(content).len(),
        text::lines_of(content)[0] == "---"@,
        text::lines_of(content)[close] == "---"@,
        forall|i: int| 1 <= i < close ==> #[trigger] text::lines_of(content)[i] != "---"@,
    ensures
        has_frontmatter(content),
        header_lines(content) == text::lines_of(content).subrange(1, close),
        body_of(content) == text::joined(
            text::lines_of(content).subrange(close + 1, text::lines_of(content).len() as int),
            "\n"@,
        ),
        frontmatter_of(content) == fields(text::lines_of(content).subrange(1, close)),
{
    let ls = text::lines_of(content);
    let later = later_lines(content);
    assert forall|i: int| 0 <= i < close - 1 implies !fence(#[trigger] later[i]) by {
        assert(later[i] == ls[i + 1]);
    }
    assert(later[close - 1] == ls[close]);
    lemma_first_fence_is(later, close - 1);
    assert(header_lines(content) =~= ls.subrange(1, close));
    assert(body_lines(content) =~= ls.subrange(close + 1, ls.len() as int));
}

/// A file that does not start with a `---` line, or has no such line later, is all body and
/// sets no field.
pub proof fn law_file_without_fences_is_its_body(content: Seq<char>)
    requires
        ({
            let ls = text::lines_of(content);
            ||| ls.len() == 0
            ||| ls[0] != "---"@
            ||| forall|i: int| 1 <= i < ls.len() ==> #[trigger] ls[i] != "---"@
        }),
    ensures
        body_of(content) == content,
        frontmatter_of(content).name is None,
        frontmatter_of(content).description is None,
        frontmatter_of(content).when_to_use is None,
{
    if has_frontmatter(content) {
        let later = later_lines(content);
        lemma_first_fence(later);
        let p = first_fence(later);
        assert(later[p] == text::lines_of(content)[p + 1]);
    }
}

/// A text that is not wrapped in one pair of equal quotes keeps all its characters.
pub proof fn law_other_quotes_are_kept(s: Seq<char>)
    requires
        s.len() < 2 || s[0] != s.last() || (s[0] != '"' && s[0] != '\''),
    ensures
        unquoted(s) == s,
{
}

/// A line `key: value` gives its key its value, whatever white space stands around the two;
/// one pair of quotes around the value is no part of it, and further colons are. A line
/// without a colon, and one with no value, give nothing.
pub proof fn law_line_gives_its_key_its_value(
    w1: Seq<char>,
    key: Seq<char>,
    w2: Seq<char>,
    w3: Seq<char>,
    value: Seq<char>,
    w4: Seq<char>,
)
    requires
        text::all_white(w1),
        text::all_white(w2),
        text::all_white(w3),
        text::all_white(w4),
        text::bare(key),
        text::bare(value),
        !key.contains(':'),
    ensures
        ({
            let line = (w1 + key + w2) + seq![':'] + (w3 + value + w4);
            &&& value.len() > 0 && unquoted(value).len() > 0 ==> entry(line) == Some(
                (key, unquoted(value)),
            )
            &&& value.len() == 0 || unquoted(value).len() == 0 ==> entry(line) is None
            &&& entry(w1 + key + w2) is None
        }),
{
    let a = w1 + key + w2;
    let b = w3 + value + w4;
    assert(!a.contains(':')) by {
        if a.contains(':') {
            let i = choose|i: int| 0 <= i < a.len() && a[i] == ':';
            if i < w1.len() {
                assert(text::white_space(w1[i]));
            } else if i < w1.len() + key.len() {
                assert(key[i - w1.len()] == ':');
                assert(key.contains(':'));
            } else {
                assert(text::white_space(w2[i - w1.len() - key.len()]));
            }
        }
    }
    text::law_first_cut(a, ':', b);
    text::law_trimming_takes_the_ends_off(w1, key, w2);
    text::law_trimming_takes_the_ends_off(w3, value, w4);
}

/// A line gives `key` a value.
pub open spec fn gives(line: Seq<char>, key: Seq<char>) -> bool {
    entry(line) matches Some(kv) && kv.0 == key
}

/// `value` is what the last of `lines` that gives `key` a value gives it, or `None` where no
/// line gives it one.
pub open spec fn last_given(
    lines: Seq<Seq<char>>,
    key: Seq<char>,
    value: Option<Seq<char>>,
) -> bool {
    match value {
        Some(v) => exists|i: int|
            0 <= i < lines.len() && entry(#[trigger] lines[i]) == Some((key, v)) && (forall|j: int|
                i < j < lines.len() ==> !gives(#[trigger] lines[j], key)),
        None => forall|i: int| 0 <= i < lines.len() ==> !gives(#[trigger] lines[i], key),
    }
}

proof fn lemma_field_is_last_given(lines: Seq<Seq<char>>, key: Seq<char>)
    ensures
        last_given(lines, key, field(lines, key)),
    decreases lines.len(),
{
    if lines.len() > 0 {
        let rest = lines.drop_last();
        let n = lines.len() - 1;
        if gives(lines.last(), key) {
            assert(entry(lines[n]) == Some((key, field(lines, key)->0)));
        } else {
            lemma_field_is_last_given(rest, key);
            match field(lines, key) {
                Some(v) => {
                    let i = choose|i: int|
                        0 <= i < rest.len() && entry(#[trigger] rest[i]) == Some((key, v)) && (
                        forall|j: int| i < j < rest.len() ==> !gives(#[trigger] rest[j], key));
                    assert(lines[i] == rest[i]);
                    assert forall|j: int| i < j < lines.len() implies !gives(
                        #[trigger] lines[j],
                        key,
                    ) by {
                        if j < n {
                            assert(lines[j] == rest[j]);
                        }
                    }
                },
                None => {
                    assert forall|j: int| 0 <= j < lines.len() implies !gives(
                        #[trigger] lines[j],
                        key,
                    ) by {
                        if j < n {
                            assert(lines[j] == rest[j]);
                        }
                    }
                },
            }
        }
    }
}

/// Each field is set by the lines with its own key, independently of the others: the name by
/// `name`, the description by `description` and the guidance by `when_to_use`. Of several such
/// lines the last one counts, and without one the field is not set.
pub proof fn law_fields_are_set_by_their_own_lines(content: Seq<char>, close: int)
    requires
        1 <= close < text::lines_of(content).len(),
        text::lines_of(content)[0] == "---"@,
        text::lines_of(content)[close] == "---"@,
        forall|i: int| 1 <= i < close ==> #[trigger] text::lines_of(content)[i] != "---"@,
    ensures
        ({
            let lines = text::lines_of(content).subrange(1, close);
            let fm = frontmatter_of(content);
            &&& last_given(lines, "name"@, fm.name)
            &&& last_given(lines, "description"@, fm.description)
            &&& last_given(lines, "when_to_use"@, fm.when_to_use)
        }),
{
    law_frontmatter_lies_between_fences(content, close);
    let lines = text::lines_of(content).subrange(1, close);
    lemma_field_is_last_given(lines, "name"@);
    lemma_field_is_last_given(lines, "description"@);
    lemma_field_is_last_given(lines, "when_to_use"@);
}

/// What is said of a frontmatter is said of its fields.
pub proof fn law_view_holds_the_fields(fm: Frontmatter)
    ensures
        fm.name is None <==> fm@.name is None,
        fm.name matches Some(t) ==> fm@.name == Some(t@),
        fm.description is None <==> fm@.description is None,
        fm.description matches Some(t) ==> fm@.description == Some(t@),
        fm.when_to_use is None <==> fm@.when_to_use is None,
        fm.when_to_use matches Some(t) ==> fm@.when_to_use == Some(t@),
{
}

}
