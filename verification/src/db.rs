//! The per-agent state that is stored, and the notification that asks for a monitor.
//!
//! One row per agent holds the injection baseline, the loaded skill's *reference*
//! (laboratory id and path), and the agent's latest response id. `token_repeat` and the
//! skill content are intentionally not stored. Each write is one statement on one row.

use vstd::prelude::*;

use crate::mcp::request;
use crate::mcp::run;
use crate::text;

verus! {

/// The NOTIFY channel that `mcp arcanum begin` pings and the daemon LISTENs on.
pub const MONITOR_CHANNEL: &'static str = "arcanum_monitor";

/// The loaded skill's reference plus the response id used to re-read it.
pub struct SkillRef {
    pub laboratory_id: String,
    pub skill_path: String,
    pub response_id: String,
}

/// What a [`SkillRef`] holds.
pub struct SkillRefView {
    pub laboratory_id: Seq<char>,
    pub skill_path: Seq<char>,
    pub response_id: Seq<char>,
}

impl View for SkillRef {
    type V = SkillRefView;

    open spec fn view(&self) -> SkillRefView {
        SkillRefView {
            laboratory_id: self.laboratory_id@,
            skill_path: self.skill_path@,
            response_id: self.response_id@,
        }
    }
}

/// The view of an optional reference.
pub open spec fn ref_option(r: Option<SkillRef>) -> Option<SkillRefView> {
    match r {
        Some(s) => Some(s@),
        None => None,
    }
}

/// One write to the store.
pub enum StoreWrite {
    /// Record (or refresh) the agent's latest response id, creating the row if new.
    UpsertResponseId { aih: String, response_id: String },
    /// Set the loaded skill reference, the response id and the monitor baseline together,
    /// creating the row if new.
    SetSkill {
        aih: String,
        laboratory_id: String,
        skill_path: String,
        response_id: String,
        last_total_tokens: i64,
    },
    /// Advance the injection baseline of an existing row.
    SetLastTotalTokens { aih: String, value: i64 },
    /// Drop an agent's row.
    Delete { aih: String },
}

/// What a [`StoreWrite`] holds.
pub enum StoreWriteView {
    UpsertResponseId { aih: Seq<char>, response_id: Seq<char> },
    SetSkill { aih: Seq<char>, skill: SkillRefView, last_total_tokens: i64 },
    SetLastTotalTokens { aih: Seq<char>, value: i64 },
    Delete { aih: Seq<char> },
}

impl View for StoreWrite {
    type V = StoreWriteView;

    open spec fn view(&self) -> StoreWriteView {
        match self {
            StoreWrite::UpsertResponseId { aih, response_id } => StoreWriteView::UpsertResponseId {
                aih: aih@,
                response_id: response_id@,
            },
            StoreWrite::SetSkill {
                aih,
                laboratory_id,
                skill_path,
                response_id,
                last_total_tokens,
            } => StoreWriteView::SetSkill {
                aih: aih@,
                skill: SkillRefView {
                    laboratory_id: laboratory_id@,
                    skill_path: skill_path@,
                    response_id: response_id@,
                },
                last_total_tokens: *last_total_tokens,
            },
            StoreWrite::SetLastTotalTokens { aih, value } => StoreWriteView::SetLastTotalTokens {
                aih: aih@,
                value: *value,
            },
            StoreWrite::Delete { aih } => StoreWriteView::Delete { aih: aih@ },
        }
    }
}

// ---------------------------------------------------------------------------------------
// Reading a row
// ---------------------------------------------------------------------------------------

/// The skill that the columns of a row refer to: laboratory id, path and response id, all
/// of which must be set.
pub open spec fn referenced_skill(
    columns: Option<(Option<Seq<char>>, Option<Seq<char>>, Option<Seq<char>>)>,
) -> Option<SkillRefView> {
    match columns {
        Some((Some(laboratory_id), Some(skill_path), Some(response_id))) => Some(
            SkillRefView { laboratory_id, skill_path, response_id },
        ),
        _ => None,
    }
}

/// The views of the columns of a row.
pub open spec fn column_texts(
    row: Option<(Option<String>, Option<String>, Option<String>)>,
) -> Option<(Option<Seq<char>>, Option<Seq<char>>, Option<Seq<char>>)> {
    match row {
        Some(c) => Some(
            (text::text_option(c.0), text::text_option(c.1), text::text_option(c.2)),
        ),
        None => None,
    }
}

/// The loaded skill reference in the columns laboratory id, path and response id of an
/// agent's row, or `None` if no skill is loaded (or the response id is missing).
pub fn skill_ref(row: Option<(Option<String>, Option<String>, Option<String>)>) -> (r: Option<
    SkillRef,
>)
    ensures
        ref_option(r) == referenced_skill(column_texts(row)),
        match row {
            Some((Some(laboratory_id), Some(skill_path), Some(response_id))) => r matches Some(
                skill,
            ) && {
                &&& skill.laboratory_id@ == laboratory_id@
                &&& skill.skill_path@ == skill_path@
                &&& skill.response_id@ == response_id@
            },
            _ => r is None,
        },
{
    match row {
        Some((Some(laboratory_id), Some(skill_path), Some(response_id))) => Some(
            SkillRef { laboratory_id, skill_path, response_id },
        ),
        _ => None,
    }
}

/// The injection baseline in an agent's row, or `None` if the row is absent or the column
/// is not set.
pub fn last_total_tokens(row: Option<Option<i64>>) -> (r: Option<i64>)
    ensures
        r == match row {
            Some(column) => column,
            None => None,
        },
{
    match row {
        Some(column) => column,
        None => None,
    }
}

// ---------------------------------------------------------------------------------------
// What the writes do
// ---------------------------------------------------------------------------------------

/// An agent's row.
pub struct AgentRow {
    pub laboratory_id: Option<Seq<char>>,
    pub skill_path: Option<Seq<char>>,
    pub response_id: Option<Seq<char>>,
    pub last_total_tokens: Option<i64>,
}

/// The rows of all agents.
pub type Store = Map<Seq<char>, AgentRow>;

/// What [`skill_ref`] reads for an agent.
pub open spec fn stored_skill(store: Store, aih: Seq<char>) -> Option<SkillRefView> {
    if store.contains_key(aih) {
        let row = store[aih];
        referenced_skill(Some((row.laboratory_id, row.skill_path, row.response_id)))
    } else {
        None
    }
}

/// What [`last_total_tokens`] reads for an agent.
pub open spec fn stored_baseline(store: Store, aih: Seq<char>) -> Option<i64> {
    if store.contains_key(aih) {
        store[aih].last_total_tokens
    } else {
        None
    }
}

/// The rows after a write.
pub open spec fn store_after(store: Store, write: StoreWriteView) -> Store {
    match write {
        StoreWriteView::UpsertResponseId { aih, response_id } => {
            let row = if store.contains_key(aih) {
                store[aih]
            } else {
                AgentRow {
                    laboratory_id: None,
                    skill_path: None,
                    response_id: None,
                    last_total_tokens: None,
                }
            };
            store.insert(aih, AgentRow { response_id: Some(response_id), ..row })
        },
        StoreWriteView::SetSkill { aih, skill, last_total_tokens } => store.insert(
            aih,
            AgentRow {
                laboratory_id: Some(skill.laboratory_id),
                skill_path: Some(skill.skill_path),
                response_id: Some(skill.response_id),
                last_total_tokens: Some(last_total_tokens),
            },
        ),
        StoreWriteView::SetLastTotalTokens { aih, value } => if store.contains_key(aih) {
            store.insert(aih, AgentRow { last_total_tokens: Some(value), ..store[aih] })
        } else {
            store
        },
        StoreWriteView::Delete { aih } => store.remove(aih),
    }
}

/// The rows after several writes, the first one first.
pub open spec fn store_after_all(store: Store, writes: Seq<StoreWriteView>) -> Store
    decreases writes.len(),
{
    if writes.len() == 0 {
        store
    } else {
        store_after(store_after_all(store, writes.drop_last()), writes.last())
    }
}

/// The rows that a write may leave. Each write is one statement: one that succeeds was made,
/// and one that fails was either made whole (its confirmation was lost) or not at all.
pub open spec fn outcome(store: Store, write: StoreWriteView, succeeded: bool, after: Store) -> bool {
    after == store_after(store, write) || !succeeded && after == store
}

/// The agent that a write is about.
pub open spec fn written_agent(write: StoreWriteView) -> Seq<char> {
    match write {
        StoreWriteView::UpsertResponseId { aih, .. } => aih,
        StoreWriteView::SetSkill { aih, .. } => aih,
        StoreWriteView::SetLastTotalTokens { aih, .. } => aih,
        StoreWriteView::Delete { aih } => aih,
    }
}

/// Every row that refers to a laboratory has a baseline.
pub open spec fn skills_have_baselines(store: Store) -> bool {
    forall|aih: Seq<char>| #[trigger]
        store.contains_key(aih) ==> store[aih].laboratory_id is Some
            ==> store[aih].last_total_tokens is Some
}

// ---------------------------------------------------------------------------------------
// Laws
// ---------------------------------------------------------------------------------------

/// A loaded skill always has a baseline: whatever writes were made to a store that was
/// empty at first, an agent for which a skill is read also has a baseline.
pub proof fn law_loaded_skill_has_baseline(writes: Seq<StoreWriteView>, aih: Seq<char>)
    ensures
        stored_skill(store_after_all(Map::empty(), writes), aih) is Some ==> stored_baseline(
            store_after_all(Map::empty(), writes),
            aih,
        ) is Some,
{
    lemma_baselines_kept(writes);
}

/// Every write, also one that fails, leaves no skill without a baseline where there was none.
pub proof fn law_outcomes_keep_baselines(
    store: Store,
    write: StoreWriteView,
    succeeded: bool,
    after: Store,
)
    requires
        skills_have_baselines(store),
        outcome(store, write, succeeded, after),
    ensures
        skills_have_baselines(after),
{
}

proof fn lemma_baselines_kept(writes: Seq<StoreWriteView>)
    ensures
        skills_have_baselines(store_after_all(Map::empty(), writes)),
    decreases writes.len(),
{
    if writes.len() > 0 {
        lemma_baselines_kept(writes.drop_last());
    }
}

/// A loaded skill is read back as it was written, with its baseline.
pub proof fn law_loaded_skill_is_read_back(
    store: Store,
    aih: Seq<char>,
    skill: SkillRefView,
    last_total_tokens: i64,
)
    ensures
        ({
            let after = store_after(
                store,
                StoreWriteView::SetSkill { aih, skill, last_total_tokens },
            );
            &&& stored_skill(after, aih) == Some(skill)
            &&& stored_baseline(after, aih) == Some(last_total_tokens)
        }),
{
}

/// Setting a skill is one write. Where it succeeds, the skill and its baseline are both read
/// back as they were written, there is one row for the agent, and the rows of other agents are
/// unchanged. Where it fails, no field of the agent's row is changed alone: either nothing is
/// changed or all of them are set. Never is there a skill without a baseline.
pub proof fn law_skill_and_baseline_are_set_together(
    store: Store,
    aih: Seq<char>,
    skill: SkillRefView,
    last_total_tokens: i64,
    succeeded: bool,
    after: Store,
)
    requires
        outcome(
            store,
            StoreWriteView::SetSkill { aih, skill, last_total_tokens },
            succeeded,
            after,
        ),
    ensures
        succeeded || after != store ==> {
            &&& stored_skill(after, aih) == Some(skill)
            &&& stored_baseline(after, aih) == Some(last_total_tokens)
            &&& after.dom() == store.dom().insert(aih)
        },
        forall|other: Seq<char>| #![trigger after.contains_key(other)]
            #![trigger store.contains_key(other)]
            other != aih ==> after.contains_key(other) == store.contains_key(other) && (
            store.contains_key(other) ==> after[other] == store[other]),
        skills_have_baselines(store) ==> skills_have_baselines(after),
{
    if after != store {
        assert(after.dom() =~= store.dom().insert(aih));
    }
}

/// Advancing the baseline changes what is read as the baseline of an agent that has a row,
/// and nothing else; for an agent without a row it changes nothing.
pub proof fn law_advancing_keeps_the_skill(store: Store, aih: Seq<char>, value: i64)
    ensures
        ({
            let after = store_after(store, StoreWriteView::SetLastTotalTokens { aih, value });
            &&& stored_skill(after, aih) == stored_skill(store, aih)
            &&& store.contains_key(aih) ==> stored_baseline(after, aih) == Some(value)
            &&& !store.contains_key(aih) ==> after == store
        }),
{
}

/// A refreshed response id keeps the loaded skill's laboratory and path, and the baseline.
pub proof fn law_refreshing_keeps_the_skill(store: Store, aih: Seq<char>, response_id: Seq<char>)
    ensures
        ({
            let after = store_after(store, StoreWriteView::UpsertResponseId { aih, response_id });
            &&& stored_baseline(after, aih) == stored_baseline(store, aih)
            &&& stored_skill(store, aih) matches Some(s) ==> stored_skill(after, aih) == Some(
                SkillRefView { response_id, ..s },
            )
        }),
{
}

/// Of an agent whose row was dropped nothing is read.
pub proof fn law_dropped_row_is_gone(store: Store, aih: Seq<char>)
    ensures
        stored_skill(store_after(store, StoreWriteView::Delete { aih }), aih) is None,
        stored_baseline(store_after(store, StoreWriteView::Delete { aih }), aih) is None,
{
}

/// A write about one agent changes nothing of another.
pub proof fn law_writes_are_per_agent(store: Store, write: StoreWriteView, other: Seq<char>)
    requires
        written_agent(write) != other,
    ensures
        stored_skill(store_after(store, write), other) == stored_skill(store, other),
        stored_baseline(store_after(store, write), other) == stored_baseline(store, other),
{
}

// ---------------------------------------------------------------------------------------
// The notification
// ---------------------------------------------------------------------------------------

/// The JSON text of an object with a text member and a number member.
pub uninterp spec fn json_object_text(
    text_key: Seq<char>,
    text: Seq<char>,
    number_key: Seq<char>,
    number: i64,
) -> Seq<char>;

/// A key that serde_json keeps for its own use: a document that starts with such a member may
/// not be read as an object.
pub open spec fn reserved_key(key: Seq<char>) -> bool {
    key == "$serde_json::private::RawValue"@ || key == "$serde_json::private::Number"@
}

/// The members of an object with a text member and a number member. A number is read as the
/// `i64` that it is, and as a `u64` unless it is negative.
pub open spec fn two_members(
    text_key: Seq<char>,
    text: Seq<char>,
    number_key: Seq<char>,
    number: i64,
) -> Map<Seq<char>, request::JsonMemberView> {
    map![
        text_key => request::JsonMemberView::Text(text),
        number_key => request::JsonMemberView::Number {
            unsigned: if number >= 0 {
                Some(number as u64)
            } else {
                None
            },
            signed: Some(number),
        },
    ]
}

/// `Value::to_string` of serde_json, for an object made of a text member and a number
/// member: its compact JSON text, which `serde_json::from_str` reads back as an object with
/// these two members. The two keys must differ, and must not be ones that serde_json keeps for
/// its own use.
#[verifier::external_body]
fn json_object(text_key: &str, text: &str, number_key: &str, number: i64) -> (r: String)
    requires
        text_key@ != number_key@,
        !reserved_key(text_key@),
        !reserved_key(number_key@),
    ensures
        r@ == json_object_text(text_key@, text@, number_key@, number),
        request::json_text_members(r@) == Some(
            two_members(text_key@, text@, number_key@, number),
        ),
{
    let mut object = serde_json::Map::new();
    object.insert(text_key.to_string(), serde_json::Value::from(text));
    object.insert(number_key.to_string(), serde_json::Value::from(number));
    serde_json::Value::Object(object).to_string()
}

/// The payload that tells the daemon that `aih` should be (re)evaluated for monitoring, with
/// the agent's `token_repeat` (carried in the payload, as it is not stored). It is the JSON
/// text of an object that gives both back: the daemon takes it for a notification of the same
/// agent and the same `token_repeat`.
pub fn notification_payload(aih: &str, token_repeat: i64) -> (r: String)
    ensures
        r@ == json_object_text("aih"@, aih@, "token_repeat"@, token_repeat),
        request::json_text_members(r@) == Some(
            two_members("aih"@, aih@, "token_repeat"@, token_repeat),
        ),
        run::sent_for(r@) == Some(run::MonitorNotificationView { aih: aih@, token_repeat }),
{
    proof {
        reveal_strlit("aih");
        reveal_strlit("token_repeat");
        reveal_strlit("$serde_json::private::RawValue");
        reveal_strlit("$serde_json::private::Number");
        assert("aih"@.len() == 3);
        assert("token_repeat"@.len() == 12);
        assert("$serde_json::private::RawValue"@.len() == 30);
        assert("$serde_json::private::Number"@.len() == 28);
    }
    json_object("aih", aih, "token_repeat", token_repeat)
}

// ---------------------------------------------------------------------------------------
// Laws of rows and views
// ---------------------------------------------------------------------------------------

/// A skill is loaded if and only if its laboratory, its path and the response id are all set,
/// and it is made of just these.
pub proof fn law_loaded_skill_is_made_of_its_columns(
    columns: Option<(Option<Seq<char>>, Option<Seq<char>>, Option<Seq<char>>)>,
)
    ensures
        match referenced_skill(columns) {
            Some(s) => columns == Some(
                (Some(s.laboratory_id), Some(s.skill_path), Some(s.response_id)),
            ),
            None => !(columns matches Some((Some(_), Some(_), Some(_)))),
        },
{
}

/// What is read of an agent is what its row holds; of an agent without a row nothing is read.
pub proof fn law_rows_are_read_as_they_are(store: Store, aih: Seq<char>)
    ensures
        !store.contains_key(aih) ==> stored_skill(store, aih) is None && stored_baseline(
            store,
            aih,
        ) is None,
        store.contains_key(aih) ==> stored_baseline(store, aih) == store[aih].last_total_tokens,
        store.contains_key(aih) ==> (stored_skill(store, aih) matches Some(s) ==> {
            &&& store[aih].laboratory_id == Some(s.laboratory_id)
            &&& store[aih].skill_path == Some(s.skill_path)
            &&& store[aih].response_id == Some(s.response_id)
        }),
        store.contains_key(aih) && stored_skill(store, aih) is None ==> store[aih].laboratory_id
            is None || store[aih].skill_path is None || store[aih].response_id is None,
{
}

/// A refreshed response id is recorded for an agent with a row and for one without, and no
/// other column is touched.
pub proof fn law_response_id_is_recorded(store: Store, aih: Seq<char>, response_id: Seq<char>)
    ensures
        ({
            let after = store_after(store, StoreWriteView::UpsertResponseId { aih, response_id });
            &&& after.contains_key(aih)
            &&& after[aih].response_id == Some(response_id)
            &&& store.contains_key(aih) ==> {
                &&& after[aih].laboratory_id == store[aih].laboratory_id
                &&& after[aih].skill_path == store[aih].skill_path
                &&& after[aih].last_total_tokens == store[aih].last_total_tokens
            }
            &&& !store.contains_key(aih) ==> {
                &&& after[aih].laboratory_id is None
                &&& after[aih].skill_path is None
                &&& after[aih].last_total_tokens is None
            }
        }),
{
}

/// Setting a skill sets every column of its row, and advancing a baseline sets that column
/// alone, both to what they are given.
pub proof fn law_columns_hold_what_was_written(
    store: Store,
    aih: Seq<char>,
    skill: SkillRefView,
    value: i64,
)
    ensures
        ({
            let after = store_after(
                store,
                StoreWriteView::SetSkill { aih, skill, last_total_tokens: value },
            );
            &&& after.contains_key(aih)
            &&& after[aih].laboratory_id == Some(skill.laboratory_id)
            &&& after[aih].skill_path == Some(skill.skill_path)
            &&& after[aih].response_id == Some(skill.response_id)
            &&& after[aih].last_total_tokens == Some(value)
        }),
        ({
            let after = store_after(store, StoreWriteView::SetLastTotalTokens { aih, value });
            &&& after.contains_key(aih) <==> store.contains_key(aih)
            &&& store.contains_key(aih) ==> {
                &&& after[aih].laboratory_id == store[aih].laboratory_id
                &&& after[aih].skill_path == store[aih].skill_path
                &&& after[aih].response_id == store[aih].response_id
                &&& after[aih].last_total_tokens == Some(value)
            }
        }),
        !store_after(store, StoreWriteView::Delete { aih }).contains_key(aih),
{
}

/// What is said of a reference, a write or a row is said of its fields.
pub proof fn law_views_hold_the_fields(
    skill: SkillRef,
    write: StoreWrite,
    row: Option<(Option<String>, Option<String>, Option<String>)>,
)
    ensures
        skill@.laboratory_id == skill.laboratory_id@,
        skill@.skill_path == skill.skill_path@,
        skill@.response_id == skill.response_id@,
        ref_option(Some(skill)) == Some(skill@),
        ref_option(None) is None,
        match write {
            StoreWrite::UpsertResponseId { aih, response_id } => write@ == (
            StoreWriteView::UpsertResponseId { aih: aih@, response_id: response_id@ }),
            StoreWrite::SetSkill {
                aih,
                laboratory_id,
                skill_path,
                response_id,
                last_total_tokens: value,
            } => write@ matches StoreWriteView::SetSkill { aih: a, skill: s, last_total_tokens: v }
                && {
                &&& a == aih@
                &&& s.laboratory_id == laboratory_id@
                &&& s.skill_path == skill_path@
                &&& s.response_id == response_id@
                &&& v == value
            },
            StoreWrite::SetLastTotalTokens { aih, value } => write@ == (
            StoreWriteView::SetLastTotalTokens { aih: aih@, value }),
            StoreWrite::Delete { aih } => write@ == (StoreWriteView::Delete { aih: aih@ }),
        },
        row is None <==> column_texts(row) is None,
        row matches Some(c) ==> column_texts(row) == Some(
            (text::text_option(c.0), text::text_option(c.1), text::text_option(c.2)),
        ),
{
}

}
