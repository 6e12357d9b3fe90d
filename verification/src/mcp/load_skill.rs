//! The `load_skill` tool: read a laboratory's `SKILL.md`, return it to the agent as the tool's
//! reply, register it as the agent's loaded skill together with the current token count, and
//! start monitoring, so that the skill is re-injected as the agent's context grows. Loading
//! itself enqueues nothing: the monitor is the only injector.
//!
//! The reads and writes are made outside; [`LoadCall::step`] decides which comes next.

use rmcp::model::Extensions;
use vstd::prelude::*;

use crate::db;
use crate::db::{SkillRef, StoreWrite};
use crate::mcp::request;
use crate::mcp::request::{ToolError, AIH_HEADER, RESPONSE_ID_HEADER};
use crate::monitor;
use crate::text;

verus! {

/// What the tool is called with.
pub struct LoadSkillRequest {
    /// The laboratory id (from `list_skills`) that contains the skill.
    pub laboratory_id: String,
    /// The skill folder path within the laboratory (from `list_skills`), e.g.
    /// `/skills/greeting`. Its `SKILL.md` is read and loaded.
    pub path: String,
}

// ---------------------------------------------------------------------------------------
// The call
// ---------------------------------------------------------------------------------------

/// One call of the tool: who loads which skill, and how often it is to be repeated.
pub struct LoadCall {
    pub aih: String,
    pub skill: SkillRef,
    pub token_repeat: i64,
}

/// What a [`LoadCall`] holds.
pub struct LoadCallView {
    pub aih: Seq<char>,
    pub skill: db::SkillRefView,
    pub token_repeat: i64,
}

impl View for LoadCall {
    type V = LoadCallView;

    open spec fn view(&self) -> LoadCallView {
        LoadCallView { aih: self.aih@, skill: self.skill@, token_repeat: self.token_repeat }
    }
}

/// The threshold that a `token-repeat` sets: the number itself, or the largest `i64` where it
/// is larger, past which no token count grows.
pub open spec fn repeat_threshold(token_repeat: u64) -> i64 {
    if token_repeat <= i64::MAX {
        token_repeat as i64
    } else {
        i64::MAX
    }
}

/// What reading a call off a request gives: the first of the response id, the hierarchy and
/// the `token-repeat` that cannot be read is the error.
pub open spec fn load_call_result(
    headers: Option<Map<Seq<char>, Seq<u8>>>,
    laboratory_id: Seq<char>,
    path: Seq<char>,
) -> Result<LoadCallView, request::ToolErrorView> {
    match (
        request::required_header_result(headers, RESPONSE_ID_HEADER@),
        request::required_header_result(headers, AIH_HEADER@),
        request::token_repeat_result(headers),
    ) {
        (Err(e), _, _) => Err(e),
        (_, Err(e), _) => Err(e),
        (_, _, Err(e)) => Err(e),
        (Ok(response_id), Ok(aih), Ok(token_repeat)) => Ok(
            LoadCallView {
                aih,
                skill: db::SkillRefView { laboratory_id, skill_path: path, response_id },
                token_repeat: repeat_threshold(token_repeat),
            },
        ),
    }
}

/// The view of a result that is a call or a tool error.
pub open spec fn call_result(r: Result<LoadCall, ToolError>) -> Result<
    LoadCallView,
    request::ToolErrorView,
> {
    match r {
        Ok(call) => Ok(call@),
        Err(e) => Err(e@),
    }
}

/// The threshold that a `token-repeat` sets. One too large for an `i64` is never grown past, so
/// the largest `i64` stands for it.
pub fn threshold(token_repeat: u64) -> (r: i64)
    ensures
        r == repeat_threshold(token_repeat),
{
    if token_repeat <= 0x7fff_ffff_ffff_ffff {
        token_repeat as i64
    } else {
        i64::MAX
    }
}

/// The call that `extensions` and `req` make: the caller's response id and hierarchy and its
/// `token-repeat` come from the request's headers.
pub fn load_call(extensions: &Extensions, req: LoadSkillRequest) -> (r: Result<
    LoadCall,
    ToolError,
>)
    ensures
        call_result(r) == load_call_result(
            request::request_headers(*extensions),
            req.laboratory_id@,
            req.path@,
        ),
{
    let response_id = match request::required_header(extensions, RESPONSE_ID_HEADER) {
        Ok(response_id) => response_id,
        Err(e) => return Err(e),
    };
    let aih = match request::required_header(extensions, AIH_HEADER) {
        Ok(aih) => aih,
        Err(e) => return Err(e),
    };
    match request::token_repeat(extensions) {
        Ok(token_repeat) => Ok(
            LoadCall {
                aih,
                skill: SkillRef {
                    laboratory_id: req.laboratory_id,
                    skill_path: req.path,
                    response_id,
                },
                token_repeat: threshold(token_repeat),
            },
        ),
        Err(e) => Err(e),
    }
}

// ---------------------------------------------------------------------------------------
// The steps of a call
// ---------------------------------------------------------------------------------------

/// Where a call stands, and what it waits for.
pub enum LoadStage {
    /// Waits for the skill's content.
    Reading,
    /// Has the skill's content; waits for the store.
    Connecting(String),
    /// Has the skill's content; waits for the agent's current usage.
    Measuring(String),
    /// Has the skill's content; waits for the skill to be recorded.
    Recording(String),
    /// The call is answered.
    Answered,
}

/// What a call is told.
pub enum LoadEvent {
    /// The skill's content; `None` where it could not be read.
    Content(Option<String>),
    /// The store is there, or why it is not.
    Store(Result<(), String>),
    /// The agent's current usage; `None` where it is not known.
    Usage(Option<i64>),
    /// The skill is recorded, or why it is not.
    Recorded(Result<(), String>),
}

/// What a call asks for.
pub enum LoadAction {
    /// Read this skill from its laboratory.
    ReadSkill(SkillRef),
    /// Connect to the store.
    ConnectStore,
    /// Read the agent's current usage.
    ReadUsage,
    /// Make this write to the store.
    Record(StoreWrite),
    /// Start a monitor for `aih`, and answer with `content`.
    Succeed { aih: String, token_repeat: i64, content: String },
    /// Answer with this error.
    Fail(ToolError),
}

/// What a [`LoadStage`] holds.
pub enum LoadStageView {
    Reading,
    Connecting(Seq<char>),
    Measuring(Seq<char>),
    Recording(Seq<char>),
    Answered,
}

/// What a [`LoadEvent`] holds.
pub enum LoadEventView {
    Content(Option<Seq<char>>),
    Store(Result<(), Seq<char>>),
    Usage(Option<i64>),
    Recorded(Result<(), Seq<char>>),
}

/// What a [`LoadAction`] holds.
pub enum LoadActionView {
    ReadSkill(db::SkillRefView),
    ConnectStore,
    ReadUsage,
    Record(db::StoreWriteView),
    Succeed { aih: Seq<char>, token_repeat: i64, content: Seq<char> },
    Fail(request::ToolErrorView),
}

/// The view of a result that is done or failed.
pub open spec fn done_result(r: Result<(), String>) -> Result<(), Seq<char>> {
    match r {
        Ok(_) => Ok(()),
        Err(e) => Err(e@),
    }
}

impl View for LoadStage {
    type V = LoadStageView;

    open spec fn view(&self) -> LoadStageView {
        match self {
            LoadStage::Reading => LoadStageView::Reading,
            LoadStage::Connecting(content) => LoadStageView::Connecting(content@),
            LoadStage::Measuring(content) => LoadStageView::Measuring(content@),
            LoadStage::Recording(content) => LoadStageView::Recording(content@),
            LoadStage::Answered => LoadStageView::Answered,
        }
    }
}

impl View for LoadEvent {
    type V = LoadEventView;

    open spec fn view(&self) -> LoadEventView {
        match self {
            LoadEvent::Content(content) => LoadEventView::Content(text::text_option(*content)),
            LoadEvent::Store(r) => LoadEventView::Store(done_result(*r)),
            LoadEvent::Usage(usage) => LoadEventView::Usage(*usage),
            LoadEvent::Recorded(r) => LoadEventView::Recorded(done_result(*r)),
        }
    }
}

impl View for LoadAction {
    type V = LoadActionView;

    open spec fn view(&self) -> LoadActionView {
        match self {
            LoadAction::ReadSkill(skill) => LoadActionView::ReadSkill(skill@),
            LoadAction::ConnectStore => LoadActionView::ConnectStore,
            LoadAction::ReadUsage => LoadActionView::ReadUsage,
            LoadAction::Record(write) => LoadActionView::Record(write@),
            LoadAction::Succeed { aih, token_repeat, content } => LoadActionView::Succeed {
                aih: aih@,
                token_repeat: *token_repeat,
                content: content@,
            },
            LoadAction::Fail(e) => LoadActionView::Fail(e@),
        }
    }
}

/// The events that a stage waits for.
pub open spec fn expects(stage: LoadStageView, event: LoadEventView) -> bool {
    match (stage, event) {
        (LoadStageView::Reading, LoadEventView::Content(_)) => true,
        (LoadStageView::Connecting(_), LoadEventView::Store(_)) => true,
        (LoadStageView::Measuring(_), LoadEventView::Usage(_)) => true,
        (LoadStageView::Recording(_), LoadEventView::Recorded(_)) => true,
        _ => false,
    }
}

/// The error for a skill that cannot be read.
pub open spec fn missing_skill(skill: db::SkillRefView) -> request::ToolErrorView {
    request::ToolErrorView::InvalidParams(
        "no SKILL.md at "@ + skill.skill_path + " in laboratory "@ + skill.laboratory_id,
    )
}

/// The error for a store that cannot be used.
pub open spec fn store_failure(detail: Seq<char>) -> request::ToolErrorView {
    request::ToolErrorView::Internal("db"@ + ": "@ + detail)
}

/// The baseline that a load sets: the agent's current usage, or none used where it is not
/// known.
pub open spec fn load_baseline(usage: Option<i64>) -> i64 {
    match usage {
        Some(total) => total,
        None => 0,
    }
}

/// The stage after an event that was waited for, and what the call asks for then.
pub open spec fn load_step(call: LoadCallView, stage: LoadStageView, event: LoadEventView) -> (
    LoadStageView,
    LoadActionView,
) {
    match (stage, event) {
        (LoadStageView::Reading, LoadEventView::Content(Some(content))) => (
            LoadStageView::Connecting(content),
            LoadActionView::ConnectStore,
        ),
        (LoadStageView::Connecting(content), LoadEventView::Store(Ok(_))) => (
            LoadStageView::Measuring(content),
            LoadActionView::ReadUsage,
        ),
        (LoadStageView::Measuring(content), LoadEventView::Usage(usage)) => (
            LoadStageView::Recording(content),
            LoadActionView::Record(
                db::StoreWriteView::SetSkill {
                    aih: call.aih,
                    skill: call.skill,
                    last_total_tokens: load_baseline(usage),
                },
            ),
        ),
        (LoadStageView::Recording(content), LoadEventView::Recorded(Ok(_))) => (
            LoadStageView::Answered,
            LoadActionView::Succeed {
                aih: call.aih,
                token_repeat: call.token_repeat,
                content,
            },
        ),
        (_, LoadEventView::Store(Err(e))) => (
            LoadStageView::Answered,
            LoadActionView::Fail(store_failure(e)),
        ),
        (_, LoadEventView::Recorded(Err(e))) => (
            LoadStageView::Answered,
            LoadActionView::Fail(store_failure(e)),
        ),
        _ => (LoadStageView::Answered, LoadActionView::Fail(missing_skill(call.skill))),
    }
}

impl LoadCall {
    /// A call at its start: it first reads the skill over the laboratory connection.
    pub fn start(&self) -> (r: (LoadStage, LoadAction))
        ensures
            r.0@ == LoadStageView::Reading,
            r.1@ == LoadActionView::ReadSkill(self@.skill),
            r.0 is Reading,
            r.1 matches LoadAction::ReadSkill(skill) && {
                &&& skill.laboratory_id@ == self.skill.laboratory_id@
                &&& skill.skill_path@ == self.skill.skill_path@
                &&& skill.response_id@ == self.skill.response_id@
            },
    {
        (
            LoadStage::Reading,
            LoadAction::ReadSkill(
                SkillRef {
                    laboratory_id: self.skill.laboratory_id.clone(),
                    skill_path: self.skill.skill_path.clone(),
                    response_id: self.skill.response_id.clone(),
                },
            ),
        )
    }

    /// What an event leads to: the next stage, and what the call asks for.
    ///
    /// The skill is recorded by its reference, not its content, which the monitor re-reads on
    /// each refresh. "Now" is the last time that the agent saw the skill, so its current usage
    /// is recorded as the baseline in the same write, before the monitor starts. Every load
    /// resets both, so that an agent can load again to refresh.
    pub fn step(&self, stage: LoadStage, event: LoadEvent) -> (r: (LoadStage, LoadAction))
        requires
            expects(stage@, event@),
        ensures
            (r.0@, r.1@) == load_step(self@, stage@, event@),
            // A known usage is recorded as it is, with the call's own skill and agent.
            event matches LoadEvent::Usage(usage) ==> r.1 matches LoadAction::Record(
                StoreWrite::SetSkill {
                    aih,
                    laboratory_id,
                    skill_path,
                    response_id,
                    last_total_tokens,
                },
            ) && {
                &&& aih@ == self.aih@
                &&& laboratory_id@ == self.skill.laboratory_id@
                &&& skill_path@ == self.skill.skill_path@
                &&& response_id@ == self.skill.response_id@
                &&& usage matches Some(total) ==> last_total_tokens == total
                &&& usage is None ==> last_total_tokens == 0
            },
            // The content that was read is kept and handed over, with the call's own monitor.
            event matches LoadEvent::Content(Some(content)) ==> r.0 matches LoadStage::Connecting(
                kept,
            ) && kept@ == content@,
            stage matches LoadStage::Connecting(content) ==> event matches LoadEvent::Store(
                Ok(_),
            ) ==> r.0 matches LoadStage::Measuring(kept) && kept@ == content@,
            stage matches LoadStage::Measuring(content) ==> r.0 matches LoadStage::Recording(kept)
                && kept@ == content@,
            stage matches LoadStage::Recording(read) ==> event matches LoadEvent::Recorded(
                Ok(_),
            ) ==> r.1 matches LoadAction::Succeed { aih, token_repeat, content } && {
                &&& aih@ == self.aih@
                &&& token_repeat == self.token_repeat
                &&& content@ == read@
            },
    {
        match (stage, event) {
            (LoadStage::Reading, LoadEvent::Content(Some(content))) => (
                LoadStage::Connecting(content),
                LoadAction::ConnectStore,
            ),
            (LoadStage::Connecting(content), LoadEvent::Store(Ok(_))) => (
                LoadStage::Measuring(content),
                LoadAction::ReadUsage,
            ),
            (LoadStage::Measuring(content), LoadEvent::Usage(usage)) => (
                LoadStage::Recording(content),
                LoadAction::Record(
                    StoreWrite::SetSkill {
                        aih: self.aih.clone(),
                        laboratory_id: self.skill.laboratory_id.clone(),
                        skill_path: self.skill.skill_path.clone(),
                        response_id: self.skill.response_id.clone(),
                        last_total_tokens: match usage {
                            Some(total) => total,
                            None => 0,
                        },
                    },
                ),
            ),
            (LoadStage::Recording(content), LoadEvent::Recorded(Ok(_))) => (
                LoadStage::Answered,
                LoadAction::Succeed {
                    aih: self.aih.clone(),
                    token_repeat: self.token_repeat,
                    content,
                },
            ),
            (_, LoadEvent::Store(Err(e))) => (
                LoadStage::Answered,
                LoadAction::Fail(request::internal_error("db", e.as_str())),
            ),
            (_, LoadEvent::Recorded(Err(e))) => (
                LoadStage::Answered,
                LoadAction::Fail(request::internal_error("db", e.as_str())),
            ),
            _ => {
                let place = text::concat3(
                    "no SKILL.md at ",
                    self.skill.skill_path.as_str(),
                    " in laboratory ",
                );
                let message = text::concat2(place.as_str(), self.skill.laboratory_id.as_str());
                (LoadStage::Answered, LoadAction::Fail(ToolError::InvalidParams(message)))
            },
        }
    }
}

// ---------------------------------------------------------------------------------------
// Laws
// ---------------------------------------------------------------------------------------

/// What a call meets outside.
pub struct LoadAnswers {
    pub content: Option<Seq<char>>,
    pub store: Result<(), Seq<char>>,
    pub usage: Option<i64>,
    pub recorded: Result<(), Seq<char>>,
}

/// The answer to what a call asks for, as long as it is not over.
pub open spec fn answer(answers: LoadAnswers, action: LoadActionView) -> LoadEventView {
    match action {
        LoadActionView::ReadSkill(_) => LoadEventView::Content(answers.content),
        LoadActionView::ConnectStore => LoadEventView::Store(answers.store),
        LoadActionView::ReadUsage => LoadEventView::Usage(answers.usage),
        _ => LoadEventView::Recorded(answers.recorded),
    }
}

/// A whole call. A skill that cannot be read, or a store that is not there, is answered with
/// its error before anything is written. Else exactly one write is made, the skill with its
/// baseline; if it fails the answer is its error, and if not the monitor is started, with the
/// caller's `token-repeat`, and the answer is the skill's content.
pub proof fn law_load_is_recorded_before_it_is_monitored(call: LoadCallView, answers: LoadAnswers)
    ensures
        ({
            let a0 = LoadActionView::ReadSkill(call.skill);
            let (s1, a1) = load_step(call, LoadStageView::Reading, answer(answers, a0));
            let (s2, a2) = load_step(call, s1, answer(answers, a1));
            let (s3, a3) = load_step(call, s2, answer(answers, a2));
            let (s4, a4) = load_step(call, s3, answer(answers, a3));
            &&& answers.content is None ==> s1 == LoadStageView::Answered && a1
                == LoadActionView::Fail(missing_skill(call.skill))
            &&& answers.content matches Some(content) ==> {
                &&& a1 == LoadActionView::ConnectStore
                &&& answers.store matches Err(e) ==> s2 == LoadStageView::Answered && a2
                    == LoadActionView::Fail(store_failure(e))
                &&& answers.store is Ok ==> {
                    &&& a2 == LoadActionView::ReadUsage
                    &&& a3 == LoadActionView::Record(
                        db::StoreWriteView::SetSkill {
                            aih: call.aih,
                            skill: call.skill,
                            last_total_tokens: load_baseline(answers.usage),
                        },
                    )
                    &&& s4 == LoadStageView::Answered
                    &&& answers.recorded matches Err(e) ==> a4 == LoadActionView::Fail(
                        store_failure(e),
                    )
                    &&& answers.recorded is Ok ==> a4 == LoadActionView::Succeed {
                        aih: call.aih,
                        token_repeat: call.token_repeat,
                        content,
                    }
                }
            }
        }),
{
}

/// A load resets the monitor: whatever was stored before, what a load writes makes its skill
/// the loaded one with the current usage as the baseline, so the monitor's first readings
/// inject nothing until usage has grown past `token_repeat` since the load.
pub proof fn law_load_resets_the_monitor(
    call: LoadCallView,
    content: Seq<char>,
    usage: Option<i64>,
    store: db::Store,
    new: i64,
)
    ensures
        load_step(
            call,
            LoadStageView::Measuring(content),
            LoadEventView::Usage(usage),
        ).1 matches LoadActionView::Record(write) && {
            let after = db::store_after(store, write);
            &&& db::stored_skill(after, call.aih) == Some(call.skill)
            &&& db::stored_baseline(after, call.aih) == Some(load_baseline(usage))
            &&& monitor::tick(
                db::stored_baseline(after, call.aih),
                new,
                call.token_repeat,
                db::stored_skill(after, call.aih) is Some,
            ) == if new - load_baseline(usage) > call.token_repeat {
                monitor::Tick::Inject
            } else {
                monitor::Tick::Hold
            }
        },
{
}

/// A loaded skill is injected only once usage has grown past the `token-repeat` of the load,
/// however large that is.
pub proof fn law_threshold_is_the_token_repeat(token_repeat: u64, base: i64, new: i64)
    requires
        monitor::growth_fits(Some(base), new, true),
    ensures
        monitor::tick(Some(base), new, repeat_threshold(token_repeat), true)
            == monitor::Tick::Inject <==> new - base > token_repeat,
{
}

/// A call is read off its request as it stands there: the response id and the agent from their
/// headers, the laboratory and the path from the caller, and for the threshold the very number
/// that the arguments give as `token-repeat`, whatever it is. So the monitor of the load
/// injects if and only if usage grew by more than the request's `token-repeat`. Of what cannot
/// be read, the first is the error.
pub proof fn law_call_is_read_off_its_request(
    headers: Option<Map<Seq<char>, Seq<u8>>>,
    laboratory_id: Seq<char>,
    path: Seq<char>,
)
    ensures
        ({
            let response_id = request::required_header_result(
                headers,
                "x-objectiveai-response-id"@,
            );
            let aih = request::required_header_result(
                headers,
                "x-objectiveai-agent-instance-hierarchy"@,
            );
            let repeat = request::token_repeat_result(headers);
            match load_call_result(headers, laboratory_id, path) {
                Ok(call) => {
                    &&& response_id matches Ok(id) && call.skill.response_id == id
                    &&& aih matches Ok(a) && call.aih == a
                    &&& call.skill.laboratory_id == laboratory_id
                    &&& call.skill.skill_path == path
                    &&& repeat matches Ok(n) && {
                        &&& n <= i64::MAX ==> call.token_repeat == n
                        &&& forall|base: i64, new: i64|
                            monitor::growth_fits(Some(base), new, true) ==> (
                            #[trigger] monitor::tick(Some(base), new, call.token_repeat, true)
                                == monitor::Tick::Inject <==> new - base > n)
                    }
                },
                Err(e) => {
                    ||| response_id == Err::<Seq<char>, request::ToolErrorView>(e)
                    ||| response_id is Ok && aih == Err::<Seq<char>, request::ToolErrorView>(e)
                    ||| response_id is Ok && aih is Ok && repeat == Err::<
                        u64,
                        request::ToolErrorView,
                    >(e)
                },
            }
        }),
{
    if let Ok(n) = request::token_repeat_result(headers) {
        assert forall|base: i64, new: i64|
            monitor::growth_fits(Some(base), new, true) implies (#[trigger] monitor::tick(
            Some(base),
            new,
            repeat_threshold(n),
            true,
        ) == monitor::Tick::Inject <==> new - base > n) by {
            law_threshold_is_the_token_repeat(n, base, new);
        }
    }
}

/// A load makes the agent's current usage the baseline, exactly as it is; no usage is recorded
/// as none only where it is not known. The loaded skill is the one that was asked for.
pub proof fn law_load_records_the_usage(
    call: LoadCallView,
    content: Seq<char>,
    usage: Option<i64>,
    store: db::Store,
)
    ensures
        load_step(call, LoadStageView::Measuring(content), LoadEventView::Usage(usage)).1 matches
            LoadActionView::Record(write) && {
            let after = db::store_after(store, write);
            &&& usage matches Some(total) ==> db::stored_baseline(after, call.aih) == Some(total)
            &&& usage is None ==> db::stored_baseline(after, call.aih) == Some(0i64)
            &&& db::stored_skill(after, call.aih) matches Some(skill) && {
                &&& skill.laboratory_id == call.skill.laboratory_id
                &&& skill.skill_path == call.skill.skill_path
                &&& skill.response_id == call.skill.response_id
            }
        },
{
}

/// A skill that was just loaded is not injected again until usage has grown by more than the
/// threshold since the load: not at the usage of the load, and not at any total up to that.
pub proof fn law_loaded_skill_is_not_injected_at_once(
    call: LoadCallView,
    content: Seq<char>,
    total: i64,
    store: db::Store,
    new: i64,
)
    requires
        call.token_repeat >= 0,
    ensures
        load_step(call, LoadStageView::Measuring(content), LoadEventView::Usage(Some(total))).1
            matches LoadActionView::Record(write) && {
            let base = db::stored_baseline(db::store_after(store, write), call.aih);
            &&& monitor::tick(base, total, call.token_repeat, true) == monitor::Tick::Hold
            &&& new <= total + call.token_repeat ==> monitor::tick(
                base,
                new,
                call.token_repeat,
                true,
            ) == monitor::Tick::Hold
            &&& new > total + call.token_repeat ==> monitor::tick(
                base,
                new,
                call.token_repeat,
                true,
            ) == monitor::Tick::Inject
        },
{
}

/// The content that is read is what the agent is answered with, and the monitor is that of the
/// call: nothing is cut or exchanged on the way.
pub proof fn law_answer_is_the_content_that_was_read(
    call: LoadCallView,
    content: Seq<char>,
    usage: Option<i64>,
)
    ensures
        ({
            let s1 = load_step(
                call,
                LoadStageView::Reading,
                LoadEventView::Content(Some(content)),
            ).0;
            let s2 = load_step(call, s1, LoadEventView::Store(Ok(()))).0;
            let s3 = load_step(call, s2, LoadEventView::Usage(usage)).0;
            load_step(call, s3, LoadEventView::Recorded(Ok(()))).1 matches LoadActionView::Succeed {
                aih,
                token_repeat,
                content: answered,
            } && answered == content && aih == call.aih && token_repeat == call.token_repeat
        }),
{
}

/// A skill that cannot be read is answered with its path and its laboratory, and a store that
/// fails with the failure's own words.
pub proof fn law_failures_are_named(
    call: LoadCallView,
    content: Seq<char>,
    detail: Seq<char>,
)
    ensures
        load_step(call, LoadStageView::Reading, LoadEventView::Content(None)).1
            == LoadActionView::Fail(
            request::ToolErrorView::InvalidParams(
                "no SKILL.md at "@ + call.skill.skill_path + " in laboratory "@
                    + call.skill.laboratory_id,
            ),
        ),
        load_step(
            call,
            LoadStageView::Connecting(content),
            LoadEventView::Store(Err(detail)),
        ).1 == LoadActionView::Fail(request::ToolErrorView::Internal("db: "@ + detail)),
        load_step(
            call,
            LoadStageView::Recording(content),
            LoadEventView::Recorded(Err(detail)),
        ).1 == LoadActionView::Fail(request::ToolErrorView::Internal("db: "@ + detail)),
{
    reveal_strlit("db");
    reveal_strlit(": ");
    reveal_strlit("db: ");
    assert("db"@ + ": "@ + detail =~= "db: "@ + detail);
}

/// What is said of a call, a stage, an event or an action is said of what it holds.
pub proof fn law_views_hold_the_contents(
    call: LoadCall,
    stage: LoadStage,
    event: LoadEvent,
    action: LoadAction,
    done: Result<(), String>,
    read: Result<LoadCall, ToolError>,
)
    ensures
        call@.aih == call.aih@,
        call@.skill == call.skill@,
        call@.token_repeat == call.token_repeat,
        match stage {
            LoadStage::Reading => stage@ is Reading,
            LoadStage::Connecting(t) => stage@ == LoadStageView::Connecting(t@),
            LoadStage::Measuring(t) => stage@ == LoadStageView::Measuring(t@),
            LoadStage::Recording(t) => stage@ == LoadStageView::Recording(t@),
            LoadStage::Answered => stage@ is Answered,
        },
        match event {
            LoadEvent::Content(None) => event@ == LoadEventView::Content(None),
            LoadEvent::Content(Some(t)) => event@ == LoadEventView::Content(Some(t@)),
            LoadEvent::Store(x) => event@ == LoadEventView::Store(done_result(x)),
            LoadEvent::Usage(u) => event@ == LoadEventView::Usage(u),
            LoadEvent::Recorded(x) => event@ == LoadEventView::Recorded(done_result(x)),
        },
        match action {
            LoadAction::ReadSkill(skill) => action@ == LoadActionView::ReadSkill(skill@),
            LoadAction::ConnectStore => action@ is ConnectStore,
            LoadAction::ReadUsage => action@ is ReadUsage,
            LoadAction::Record(w) => action@ == LoadActionView::Record(w@),
            LoadAction::Succeed { aih, token_repeat, content } => action@ == (
            LoadActionView::Succeed { aih: aih@, token_repeat, content: content@ }),
            LoadAction::Fail(e) => action@ == LoadActionView::Fail(e@),
        },
        match done {
            Ok(_) => done_result(done) == Ok::<(), Seq<char>>(()),
            Err(t) => done_result(done) == Err::<(), Seq<char>>(t@),
        },
        match read {
            Ok(c) => call_result(read) == Ok::<LoadCallView, request::ToolErrorView>(c@),
            Err(e) => call_result(read) == Err::<LoadCallView, request::ToolErrorView>(e@),
        },
{
}

/// A call takes every answer to what it asked for.
pub proof fn law_answers_are_expected(
    t: Seq<char>,
    content: Option<Seq<char>>,
    done: Result<(), Seq<char>>,
    usage: Option<i64>,
)
    ensures
        expects(LoadStageView::Reading, LoadEventView::Content(content)),
        expects(LoadStageView::Connecting(t), LoadEventView::Store(done)),
        expects(LoadStageView::Measuring(t), LoadEventView::Usage(usage)),
        expects(LoadStageView::Recording(t), LoadEventView::Recorded(done)),
{
}

}
