//! The per-agent token-usage monitor.
//!
//! For each watched agent instance hierarchy (AIH) it waits for the agent's `total_tokens` to
//! change; whenever they grow past `token_repeat` since the last injection, it re-reads the
//! loaded skill fresh from the laboratory and re-enqueues it as an `<arcanum>…</arcanum>`
//! message. It keeps waiting even with no skill loaded (advancing the baseline quietly) and
//! stops when the instance goes inactive.
//!
//! The loop's reads and writes are made outside; [`LoopState::step`] decides which comes next.

use vstd::prelude::*;

use crate::db;
use crate::db::{SkillRef, StoreWrite};
use crate::text;

verus! {

/// Idempotency key for the re-injected skill message: a later injection replaces any
/// still-queued earlier one for the same agent.
pub const ENQUEUE_KEY: &'static str = "arcanum-skill";

// ---------------------------------------------------------------------------------------
// The injected message
// ---------------------------------------------------------------------------------------

/// A skill's content as the message the agent sees.
pub open spec fn injection_text(skill_content: Seq<char>) -> Seq<char> {
    "<arcanum>\n"@ + skill_content + "\n</arcanum>"@
}

/// Wrap a skill's content as the `<arcanum>…</arcanum>` message the agent sees.
pub fn format_injection(skill_content: &str) -> (r: String)
    ensures
        r@ == injection_text(skill_content@),
        r@ == "<arcanum>\n"@ + skill_content@ + "\n</arcanum>"@,
{
    text::concat3("<arcanum>\n", skill_content, "\n</arcanum>")
}

/// A message for an agent's queue.
pub struct EnqueueRequest {
    /// The hierarchy above the agent instance, if it has one.
    pub parent: Option<String>,
    /// The agent instance itself.
    pub instance: String,
    /// The message.
    pub message: String,
    /// The idempotency key.
    pub key: String,
}

/// The parent and the instance that a hierarchy names: what stands before and after its last
/// `/`, or no parent and all of it.
pub open spec fn agent_of(aih: Seq<char>) -> (Option<Seq<char>>, Seq<char>) {
    match text::cut_last(aih, '/') {
        Some(pi) => (Some(pi.0), pi.1),
        None => (None, aih),
    }
}

/// The request that puts `skill_content` into the queue of `aih` as an
/// `<arcanum>…</arcanum>` message.
pub fn enqueue_request(aih: &str, skill_content: &str) -> (r: EnqueueRequest)
    ensures
        (text::text_option(r.parent), r.instance@) == agent_of(aih@),
        r.message@ == injection_text(skill_content@),
        r.message@ == "<arcanum>\n"@ + skill_content@ + "\n</arcanum>"@,
        r.key@ == ENQUEUE_KEY@,
{
    let (parent, instance) = match text::rsplit_once(aih, '/') {
        Some((p, i)) => (Some(p.to_string()), i.to_string()),
        None => (None, aih.to_string()),
    };
    EnqueueRequest {
        parent,
        instance,
        message: format_injection(skill_content),
        key: ENQUEUE_KEY.to_string(),
    }
}

/// A hierarchy is its parent, a `/`, and its instance, and the instance holds no `/`; one
/// without a `/` has no parent.
pub proof fn law_agent_of_hierarchy(aih: Seq<char>)
    ensures
        !agent_of(aih).1.contains('/'),
        agent_of(aih).0 matches Some(parent) ==> parent + seq!['/'] + agent_of(aih).1 == aih,
        agent_of(aih).0 is None <==> !aih.contains('/'),
{
    text::lemma_last_position(aih, '/');
    let p = text::last_position(aih, '/');
    let instance = agent_of(aih).1;
    assert forall|i: int| 0 <= i < instance.len() implies instance[i] != '/' by {
        if p >= 0 {
            assert(instance[i] == aih[p + 1 + i]);
        }
    }
    if p >= 0 {
        assert(aih.contains(aih[p]));
        assert(aih.subrange(0, p) + seq!['/'] + aih.subrange(p + 1, aih.len() as int) =~= aih);
    }
}

/// The message determines the content that it carries.
pub proof fn law_injection_carries_content(a: Seq<char>, b: Seq<char>)
    requires
        injection_text(a) == injection_text(b),
    ensures
        a == b,
{
    let open = "<arcanum>\n"@;
    let close = "\n</arcanum>"@;
    assert(injection_text(a).len() == open.len() + a.len() + close.len());
    assert(injection_text(b).len() == open.len() + b.len() + close.len());
    assert forall|i: int| 0 <= i < a.len() implies a[i] == b[i] by {
        assert(injection_text(a)[open.len() + i] == a[i]);
        assert(injection_text(b)[open.len() + i] == b[i]);
    }
    assert(a =~= b);
}

// ---------------------------------------------------------------------------------------
// One reading
// ---------------------------------------------------------------------------------------

/// What one monitor tick does with a fresh `total_tokens` reading.
#[derive(Debug, Clone, Copy, PartialEq, Eq, Structural)]
pub enum Tick {
    /// Re-read the loaded skill and enqueue it; advance the baseline.
    Inject,
    /// Advance the baseline quietly (no injection).
    AdvanceBaseline,
    /// Skill loaded but below threshold: keep accumulating.
    Hold,
}

/// What a tick does: with no baseline or no skill the reading becomes the baseline; with a
/// skill, growth of more than `token_repeat` past the baseline injects it.
pub open spec fn tick(base: Option<i64>, new: i64, token_repeat: i64, has_skill: bool) -> Tick {
    match base {
        Some(b) if has_skill => if new - b > token_repeat {
            Tick::Inject
        } else {
            Tick::Hold
        },
        _ => Tick::AdvanceBaseline,
    }
}

/// The growth past the baseline, where it is looked at, is a number that an `i64` holds.
pub open spec fn growth_fits(base: Option<i64>, new: i64, has_skill: bool) -> bool {
    base is Some && has_skill ==> i64::MIN <= new - base->0 <= i64::MAX
}

/// Decide what a tick does given the injection baseline, the new total, the repeat threshold,
/// and whether a skill is loaded. Injection is a refresher, not an initializer: it fires only
/// once usage grows strictly past `token_repeat` beyond the baseline. The first observation
/// just records the baseline: a freshly loaded skill is delivered by `load_skill`'s tool
/// response, not by the monitor.
pub fn decide(base: Option<i64>, new: i64, token_repeat: i64, has_skill: bool) -> (r: Tick)
    requires
        growth_fits(base, new, has_skill),
    ensures
        r == tick(base, new, token_repeat, has_skill),
        r == Tick::Inject <==> has_skill && (base matches Some(b) && new - b > token_repeat),
        r == Tick::Hold <==> has_skill && (base matches Some(b) && new - b <= token_repeat),
{
    match base {
        // No baseline recorded yet: record it without injecting.
        None => Tick::AdvanceBaseline,
        Some(b) => if !has_skill {
            // No skill loaded: keep the baseline current, quietly.
            Tick::AdvanceBaseline
        } else if new - b > token_repeat {
            // Skill loaded and usage grew past the threshold: refresh it.
            Tick::Inject
        } else {
            // Skill loaded but below threshold: keep accumulating.
            Tick::Hold
        },
    }
}

// ---------------------------------------------------------------------------------------
// The loop
// ---------------------------------------------------------------------------------------

/// Where a monitor loop stands, and what it waits for.
#[derive(Debug, Clone, Copy, PartialEq, Eq, Structural)]
pub enum LoopState {
    /// Waits for the baseline that it starts from.
    Starting,
    /// Waits for the agent's usage to change.
    Waiting,
    /// Saw this total; waits for the stored baseline and skill.
    Observed(i64),
    /// Is to refresh the skill at this total; waits for the skill's content.
    Refreshing(i64),
    /// Saw this total; waits for what it asked for to be done.
    Settling(i64),
    /// The instance is done; waits for its row to be dropped.
    Leaving,
    /// The loop is over.
    Stopped,
}

/// What a monitor loop is told.
pub enum LoopEvent {
    /// The stored baseline; `None` also where it could not be read.
    Baseline(Option<i64>),
    /// The agent's usage changed to this total.
    Usage(i64),
    /// The agent's instance is inactive.
    Inactive,
    /// The subscription failed or ended.
    Ended,
    /// The stored baseline and the loaded skill; `None` also where one could not be read.
    Stored { base: Option<i64>, skill: Option<SkillRef> },
    /// The loaded skill's content; `None` where it could not be read.
    Content(Option<String>),
    /// What the loop asked for is done.
    Done,
}

/// What a monitor loop asks for.
pub enum LoopAction {
    /// Read the stored baseline.
    ReadBaseline,
    /// Wait for the agent's usage to differ from the total seen last.
    Subscribe { previous: Option<i64> },
    /// Read the stored baseline and skill.
    ReadStored,
    /// Re-read this skill from its laboratory.
    ReadSkill(SkillRef),
    /// Enqueue this content and make `baseline` the baseline.
    Inject { content: String, baseline: i64 },
    /// Make this total the baseline.
    AdvanceBaseline(i64),
    /// Drop the agent's row.
    DropRow,
    /// Nothing more.
    Stop,
}

/// What a [`LoopEvent`] holds.
pub enum LoopEventView {
    Baseline(Option<i64>),
    Usage(i64),
    Inactive,
    Ended,
    Stored { base: Option<i64>, skill: Option<db::SkillRefView> },
    Content(Option<Seq<char>>),
    Done,
}

/// What a [`LoopAction`] holds.
pub enum LoopActionView {
    ReadBaseline,
    Subscribe { previous: Option<i64> },
    ReadStored,
    ReadSkill(db::SkillRefView),
    Inject { content: Seq<char>, baseline: i64 },
    AdvanceBaseline(i64),
    DropRow,
    Stop,
}

impl View for LoopEvent {
    type V = LoopEventView;

    open spec fn view(&self) -> LoopEventView {
        match self {
            LoopEvent::Baseline(b) => LoopEventView::Baseline(*b),
            LoopEvent::Usage(n) => LoopEventView::Usage(*n),
            LoopEvent::Inactive => LoopEventView::Inactive,
            LoopEvent::Ended => LoopEventView::Ended,
            LoopEvent::Stored { base, skill } => LoopEventView::Stored {
                base: *base,
                skill: db::ref_option(*skill),
            },
            LoopEvent::Content(c) => LoopEventView::Content(text::text_option(*c)),
            LoopEvent::Done => LoopEventView::Done,
        }
    }
}

impl View for LoopAction {
    type V = LoopActionView;

    open spec fn view(&self) -> LoopActionView {
        match self {
            LoopAction::ReadBaseline => LoopActionView::ReadBaseline,
            LoopAction::Subscribe { previous } => LoopActionView::Subscribe { previous: *previous },
            LoopAction::ReadStored => LoopActionView::ReadStored,
            LoopAction::ReadSkill(s) => LoopActionView::ReadSkill(s@),
            LoopAction::Inject { content, baseline } => LoopActionView::Inject {
                content: content@,
                baseline: *baseline,
            },
            LoopAction::AdvanceBaseline(n) => LoopActionView::AdvanceBaseline(*n),
            LoopAction::DropRow => LoopActionView::DropRow,
            LoopAction::Stop => LoopActionView::Stop,
        }
    }
}

/// The events that a state waits for.
pub open spec fn expects(state: LoopState, event: LoopEventView) -> bool {
    match (state, event) {
        (LoopState::Starting, LoopEventView::Baseline(_)) => true,
        (LoopState::Waiting, LoopEventView::Usage(_)) => true,
        (LoopState::Waiting, LoopEventView::Inactive) => true,
        (LoopState::Waiting, LoopEventView::Ended) => true,
        (LoopState::Observed(new), LoopEventView::Stored { base, skill }) => growth_fits(
            base,
            new,
            skill is Some,
        ),
        (LoopState::Refreshing(_), LoopEventView::Content(_)) => true,
        (LoopState::Settling(_), LoopEventView::Done) => true,
        (LoopState::Leaving, LoopEventView::Done) => true,
        _ => false,
    }
}

/// The state after an event that was waited for, and what the loop asks for then.
pub open spec fn loop_step(token_repeat: i64, state: LoopState, event: LoopEventView) -> (
    LoopState,
    LoopActionView,
) {
    match (state, event) {
        (LoopState::Starting, LoopEventView::Baseline(base)) => (
            LoopState::Waiting,
            LoopActionView::Subscribe { previous: base },
        ),
        (LoopState::Waiting, LoopEventView::Usage(new)) => (
            LoopState::Observed(new),
            LoopActionView::ReadStored,
        ),
        (LoopState::Waiting, LoopEventView::Inactive) => (
            LoopState::Leaving,
            LoopActionView::DropRow,
        ),
        (LoopState::Observed(new), LoopEventView::Stored { base, skill }) => match tick(
            base,
            new,
            token_repeat,
            skill is Some,
        ) {
            Tick::Inject => (
                LoopState::Refreshing(new),
                LoopActionView::ReadSkill(skill->0),
            ),
            Tick::AdvanceBaseline => (
                LoopState::Settling(new),
                LoopActionView::AdvanceBaseline(new),
            ),
            Tick::Hold => (
                LoopState::Waiting,
                LoopActionView::Subscribe { previous: Some(new) },
            ),
        },
        (LoopState::Refreshing(new), LoopEventView::Content(Some(content))) => (
            LoopState::Settling(new),
            LoopActionView::Inject { content, baseline: new },
        ),
        (LoopState::Refreshing(new), LoopEventView::Content(None)) => (
            LoopState::Waiting,
            LoopActionView::Subscribe { previous: Some(new) },
        ),
        (LoopState::Settling(new), LoopEventView::Done) => (
            LoopState::Waiting,
            LoopActionView::Subscribe { previous: Some(new) },
        ),
        _ => (LoopState::Stopped, LoopActionView::Stop),
    }
}

impl LoopState {
    /// A loop at its start: it first reads the baseline, for the total to wait past.
    pub fn start() -> (r: (LoopState, LoopAction))
        ensures
            r.0 == LoopState::Starting,
            r.1@ == LoopActionView::ReadBaseline,
    {
        (LoopState::Starting, LoopAction::ReadBaseline)
    }

    /// What an event leads to: the next state, and what the loop asks for.
    ///
    /// The total seen last is passed on every wait, so that the loop never spins on a reading
    /// that it has dealt with. The baseline is the stored one at each tick, so a reset by a
    /// load in between is picked up. Where the skill cannot be read the baseline stays put,
    /// so that the next tick tries again.
    pub fn step(self, token_repeat: i64, event: LoopEvent) -> (r: (LoopState, LoopAction))
        requires
            expects(self, event@),
        ensures
            (r.0, r.1@) == loop_step(token_repeat, self, event@),
            // What is injected is the content that was read, at the total that was seen.
            event matches LoopEvent::Content(Some(read)) ==> self matches LoopState::Refreshing(
                seen,
            ) ==> r.1 matches LoopAction::Inject { content, baseline } && content@ == read@
                && baseline == seen,
            // What is re-read is the loaded skill.
            r.1 matches LoopAction::ReadSkill(s) ==> event matches LoopEvent::Stored {
                skill: Some(loaded),
                ..
            } && {
                &&& s.laboratory_id@ == loaded.laboratory_id@
                &&& s.skill_path@ == loaded.skill_path@
                &&& s.response_id@ == loaded.response_id@
            },
    {
        match (self, event) {
            (LoopState::Starting, LoopEvent::Baseline(base)) => (
                LoopState::Waiting,
                LoopAction::Subscribe { previous: base },
            ),
            (LoopState::Waiting, LoopEvent::Usage(new)) => (
                LoopState::Observed(new),
                LoopAction::ReadStored,
            ),
            (LoopState::Waiting, LoopEvent::Inactive) => (LoopState::Leaving, LoopAction::DropRow),
            (LoopState::Observed(new), LoopEvent::Stored { base, skill }) => {
                match (decide(base, new, token_repeat, skill.is_some()), skill) {
                    (Tick::Inject, Some(skill)) => (
                        LoopState::Refreshing(new),
                        LoopAction::ReadSkill(skill),
                    ),
                    (Tick::AdvanceBaseline, _) => (
                        LoopState::Settling(new),
                        LoopAction::AdvanceBaseline(new),
                    ),
                    _ => (LoopState::Waiting, LoopAction::Subscribe { previous: Some(new) }),
                }
            },
            (LoopState::Refreshing(new), LoopEvent::Content(Some(content))) => (
                LoopState::Settling(new),
                LoopAction::Inject { content, baseline: new },
            ),
            (LoopState::Refreshing(new), LoopEvent::Content(None)) => (
                LoopState::Waiting,
                LoopAction::Subscribe { previous: Some(new) },
            ),
            (LoopState::Settling(new), LoopEvent::Done) => (
                LoopState::Waiting,
                LoopAction::Subscribe { previous: Some(new) },
            ),
            _ => (LoopState::Stopped, LoopAction::Stop),
        }
    }
}

/// What a subscription tells the loop: `Some(Some(total))` is a new total, `Some(None)` an
/// inactive instance, and `None` a failure or the end of the subscription.
pub fn subscription_event(item: Option<Option<i64>>) -> (r: LoopEvent)
    ensures
        r@ == match item {
            Some(Some(total)) => LoopEventView::Usage(total),
            Some(None) => LoopEventView::Inactive,
            None => LoopEventView::Ended,
        },
{
    match item {
        Some(Some(total)) => LoopEvent::Usage(total),
        Some(None) => LoopEvent::Inactive,
        None => LoopEvent::Ended,
    }
}

/// The write to the store that an action of the loop of `aih` is.
pub open spec fn loop_write(action: LoopActionView, aih: Seq<char>) -> Option<
    db::StoreWriteView,
> {
    match action {
        LoopActionView::Inject { baseline, .. } => Some(
            db::StoreWriteView::SetLastTotalTokens { aih, value: baseline },
        ),
        LoopActionView::AdvanceBaseline(value) => Some(
            db::StoreWriteView::SetLastTotalTokens { aih, value },
        ),
        LoopActionView::DropRow => Some(db::StoreWriteView::Delete { aih }),
        _ => None,
    }
}

impl LoopAction {
    /// The write to the store that this action of the loop of `aih` is, if it is one.
    pub fn store_write(&self, aih: &str) -> (r: Option<StoreWrite>)
        ensures
            r is Some <==> loop_write(self@, aih@) is Some,
            r matches Some(w) ==> loop_write(self@, aih@) == Some(w@),
            match *self {
                LoopAction::Inject { baseline, .. } => r matches Some(
                    StoreWrite::SetLastTotalTokens { aih: a, value },
                ) && a@ == aih@ && value == baseline,
                LoopAction::AdvanceBaseline(total) => r matches Some(
                    StoreWrite::SetLastTotalTokens { aih: a, value },
                ) && a@ == aih@ && value == total,
                LoopAction::DropRow => r matches Some(StoreWrite::Delete { aih: a }) && a@ == aih@,
                _ => r is None,
            },
    {
        match self {
            LoopAction::Inject { baseline, .. } => Some(
                StoreWrite::SetLastTotalTokens { aih: aih.to_string(), value: *baseline },
            ),
            LoopAction::AdvanceBaseline(value) => Some(
                StoreWrite::SetLastTotalTokens { aih: aih.to_string(), value: *value },
            ),
            LoopAction::DropRow => Some(StoreWrite::Delete { aih: aih.to_string() }),
            _ => None,
        }
    }
}

// ---------------------------------------------------------------------------------------
// Beginning to monitor
// ---------------------------------------------------------------------------------------

/// Whether the begin trigger goes on to look at the baseline: only if a skill is loaded. With
/// no skill there is nothing to monitor, and after a failed read a later trigger tries again.
pub fn begin_wants_monitor(skill: &Result<Option<SkillRef>, String>) -> (r: bool)
    ensures
        r == (skill matches Ok(Some(_))),
{
    match skill {
        Ok(Some(_)) => true,
        _ => false,
    }
}

/// Whether the begin trigger starts a monitor, given the baseline of an agent with a loaded
/// skill. A loaded skill always has a baseline; after a failed read a later trigger tries
/// again.
pub fn begin_starts_monitor(baseline: &Result<Option<i64>, String>) -> (r: bool)
    requires
        baseline matches Ok(b) ==> b is Some,
    ensures
        r == baseline is Ok,
{
    match baseline {
        Ok(_) => true,
        Err(_) => false,
    }
}

// ---------------------------------------------------------------------------------------
// Laws of the loop
// ---------------------------------------------------------------------------------------

/// The cursor follows the readings: once a total was seen, the next wait is for a total that
/// differs from it, whatever is done about it in between.
pub proof fn law_cursor_follows_usage(
    token_repeat: i64,
    state: LoopState,
    event: LoopEventView,
    seen: i64,
)
    requires
        state == LoopState::Observed(seen) || state == LoopState::Refreshing(seen) || state
            == LoopState::Settling(seen),
        expects(state, event),
    ensures
        ({
            let (next, action) = loop_step(token_repeat, state, event);
            ||| next == LoopState::Refreshing(seen)
            ||| next == LoopState::Settling(seen)
            ||| next == LoopState::Waiting && action == LoopActionView::Subscribe {
                previous: Some(seen),
            }
        }),
{
}

/// The loop is over only when the subscription ended, or when the instance went inactive; in
/// the latter case, and no other, the agent's row is dropped first.
pub proof fn law_loop_ends_with_the_instance(
    token_repeat: i64,
    state: LoopState,
    event: LoopEventView,
)
    requires
        expects(state, event),
    ensures
        loop_step(token_repeat, state, event).1 == LoopActionView::DropRow <==> event
            == LoopEventView::Inactive,
        loop_step(token_repeat, state, event).0 == LoopState::Leaving <==> event
            == LoopEventView::Inactive,
        loop_step(token_repeat, state, event).0 == LoopState::Stopped <==> event
            == LoopEventView::Ended || state == LoopState::Leaving,
{
}

/// The loop never records a skill or a response id: its writes advance a baseline or drop the
/// row, and are about its own agent.
pub proof fn law_loop_writes_its_own_row(
    token_repeat: i64,
    state: LoopState,
    event: LoopEventView,
    aih: Seq<char>,
)
    requires
        expects(state, event),
    ensures
        loop_write(loop_step(token_repeat, state, event).1, aih) matches Some(w) ==> {
            &&& db::written_agent(w) == aih
            &&& w is SetLastTotalTokens || w is Delete
        },
{
}

/// What one tick of the loop meets: the new total, the loaded skill, and what reading that
/// skill gives.
pub struct Reading {
    pub new: i64,
    pub skill: Option<db::SkillRefView>,
    pub content: Option<Seq<char>>,
}

/// Whether a tick puts the skill into the agent's queue.
pub open spec fn injects(token_repeat: i64, base: Option<i64>, reading: Reading) -> bool {
    tick(base, reading.new, token_repeat, reading.skill is Some) == Tick::Inject
        && reading.content is Some
}

/// The baseline after a tick.
pub open spec fn baseline_after_tick(
    token_repeat: i64,
    base: Option<i64>,
    reading: Reading,
) -> Option<i64> {
    match tick(base, reading.new, token_repeat, reading.skill is Some) {
        Tick::Inject => if reading.content is Some {
            Some(reading.new)
        } else {
            base
        },
        Tick::AdvanceBaseline => Some(reading.new),
        Tick::Hold => base,
    }
}

/// The baseline after several ticks.
pub open spec fn baseline_after(
    token_repeat: i64,
    base: Option<i64>,
    readings: Seq<Reading>,
) -> Option<i64>
    decreases readings.len(),
{
    if readings.len() == 0 {
        base
    } else {
        baseline_after_tick(
            token_repeat,
            baseline_after(token_repeat, base, readings.drop_last()),
            readings.last(),
        )
    }
}

/// Whether tick `i` of several puts the skill into the agent's queue.
pub open spec fn injects_at(
    token_repeat: i64,
    base: Option<i64>,
    readings: Seq<Reading>,
    i: int,
) -> bool {
    injects(token_repeat, baseline_after(token_repeat, base, readings.subrange(0, i)), readings[i])
}

/// The events of a tick after the usage changed: the answers to what the loop asks for.
pub open spec fn answer(base: Option<i64>, reading: Reading, action: LoopActionView) -> LoopEventView {
    match action {
        LoopActionView::ReadStored => LoopEventView::Stored { base, skill: reading.skill },
        LoopActionView::ReadSkill(_) => LoopEventView::Content(reading.content),
        _ => LoopEventView::Done,
    }
}

/// The loop does in a tick what is said of a tick. From a wait, a changed usage leads back to
/// a wait for a total that differs from the new one. In between the loop asks to enqueue the
/// skill's content, with the new total as the baseline, if and only if the tick injects; it
/// asks to advance the baseline alone if and only if there was no baseline or no skill; and
/// the baseline that its requests leave is the one after the tick.
pub proof fn law_tick_of_the_loop(token_repeat: i64, base: Option<i64>, reading: Reading)
    requires
        growth_fits(base, reading.new, reading.skill is Some),
    ensures
        ({
            let (s1, a1) = loop_step(
                token_repeat,
                LoopState::Waiting,
                LoopEventView::Usage(reading.new),
            );
            let (s2, a2) = loop_step(token_repeat, s1, answer(base, reading, a1));
            let (s3, a3) = loop_step(token_repeat, s2, answer(base, reading, a2));
            let (s4, a4) = loop_step(token_repeat, s3, answer(base, reading, a3));
            let wait = (
                LoopState::Waiting,
                LoopActionView::Subscribe { previous: Some(reading.new) },
            );
            let loaded = base is Some && reading.skill is Some;
            &&& a1 == LoopActionView::ReadStored
            // With no baseline or no skill, the baseline is advanced and nothing else is done.
            &&& !loaded ==> {
                &&& a2 == LoopActionView::AdvanceBaseline(reading.new)
                &&& (s3, a3) == wait
                &&& baseline_after_tick(token_repeat, base, reading) == Some(reading.new)
                &&& !injects(token_repeat, base, reading)
            }
            // With a skill and no more growth than the threshold, nothing is done.
            &&& loaded && reading.new - base->0 <= token_repeat ==> {
                &&& (s2, a2) == wait
                &&& baseline_after_tick(token_repeat, base, reading) == base
                &&& !injects(token_repeat, base, reading)
            }
            // With more growth the skill is read, and put into the queue if that succeeds.
            &&& loaded && reading.new - base->0 > token_repeat ==> {
                &&& a2 == LoopActionView::ReadSkill(reading.skill->0)
                &&& reading.content matches Some(content) ==> {
                    &&& a3 == LoopActionView::Inject { content, baseline: reading.new }
                    &&& (s4, a4) == wait
                    &&& baseline_after_tick(token_repeat, base, reading) == Some(reading.new)
                    &&& injects(token_repeat, base, reading)
                }
                &&& reading.content is None ==> {
                    &&& (s3, a3) == wait
                    &&& baseline_after_tick(token_repeat, base, reading) == base
                    &&& !injects(token_repeat, base, reading)
                }
            }
        }),
{
}

/// The rows after the writes, if any, that two actions of the loop of `aih` are.
pub open spec fn store_after_actions(
    store: db::Store,
    aih: Seq<char>,
    first: LoopActionView,
    second: LoopActionView,
) -> db::Store {
    let between = match loop_write(first, aih) {
        Some(w) => db::store_after(store, w),
        None => store,
    };
    match loop_write(second, aih) {
        Some(w) => db::store_after(between, w),
        None => between,
    }
}

/// The store keeps the baseline from tick to tick: after a tick that met the stored baseline
/// and skill of an agent with a row, the stored baseline is the one after the tick, and the
/// loaded skill is the same.
pub proof fn law_tick_is_stored(
    token_repeat: i64,
    store: db::Store,
    aih: Seq<char>,
    reading: Reading,
)
    requires
        store.contains_key(aih),
        reading.skill == db::stored_skill(store, aih),
        growth_fits(db::stored_baseline(store, aih), reading.new, reading.skill is Some),
    ensures
        ({
            let base = db::stored_baseline(store, aih);
            let (s2, a2) = loop_step(
                token_repeat,
                LoopState::Observed(reading.new),
                LoopEventView::Stored { base, skill: reading.skill },
            );
            let (s3, a3) = loop_step(token_repeat, s2, answer(base, reading, a2));
            let after = store_after_actions(store, aih, a2, a3);
            &&& db::stored_baseline(after, aih) == baseline_after_tick(
                token_repeat,
                base,
                reading,
            )
            &&& db::stored_skill(after, aih) == reading.skill
        }),
{
}

/// Injection is a refresher, not an initializer: as long as a skill is loaded and no reading
/// is more than `token_repeat` past the baseline, nothing is injected and the baseline stays.
pub proof fn law_no_injection_before_growth(
    token_repeat: i64,
    base: i64,
    readings: Seq<Reading>,
    i: int,
)
    requires
        0 <= i < readings.len(),
        forall|k: int|
            0 <= k <= i ==> (#[trigger] readings[k]).skill is Some && readings[k].new - base
                <= token_repeat,
    ensures
        !injects_at(token_repeat, Some(base), readings, i),
        baseline_after(token_repeat, Some(base), readings.subrange(0, i + 1)) == Some(base),
    decreases i,
{
    let before = readings.subrange(0, i);
    if i > 0 {
        law_no_injection_before_growth(token_repeat, base, readings, i - 1);
    } else {
        assert(before =~= Seq::<Reading>::empty());
    }
    assert(readings.subrange(0, i + 1).drop_last() =~= before);
}

/// From an injection on, while a skill stays loaded and nothing is injected, the baseline is
/// the total of that injection.
proof fn lemma_baseline_since_injection(
    token_repeat: i64,
    base: Option<i64>,
    readings: Seq<Reading>,
    i: int,
    k: int,
)
    requires
        0 <= i < k <= readings.len(),
        injects_at(token_repeat, base, readings, i),
        forall|m: int|
            i < m < k ==> (#[trigger] readings[m]).skill is Some && !injects_at(
                token_repeat,
                base,
                readings,
                m,
            ),
    ensures
        baseline_after(token_repeat, base, readings.subrange(0, k)) == Some(readings[i].new),
    decreases k,
{
    assert(readings.subrange(0, k).drop_last() =~= readings.subrange(0, k - 1));
    if k > i + 1 {
        lemma_baseline_since_injection(token_repeat, base, readings, i, k - 1);
        assert(readings[k - 1].skill is Some);
    }
}

/// Injections are spaced: between one and the next, with a skill loaded all the while, the
/// agent's total grew by more than `token_repeat`.
pub proof fn law_injections_are_spaced(
    token_repeat: i64,
    base: Option<i64>,
    readings: Seq<Reading>,
    i: int,
    j: int,
)
    requires
        0 <= i < j < readings.len(),
        injects_at(token_repeat, base, readings, i),
        injects_at(token_repeat, base, readings, j),
        forall|m: int|
            i < m < j ==> (#[trigger] readings[m]).skill is Some && !injects_at(
                token_repeat,
                base,
                readings,
                m,
            ),
    ensures
        readings[j].new - readings[i].new > token_repeat,
{
    lemma_baseline_since_injection(token_repeat, base, readings, i, j);
}

// ---------------------------------------------------------------------------------------
// Laws of the messages and of single steps
// ---------------------------------------------------------------------------------------

/// An injected message starts with `<arcanum>` and a line feed, ends with a line feed and
/// `</arcanum>`, and what stands between the two is exactly the content, whatever its length.
pub proof fn law_content_stands_between_the_tags(content: Seq<char>)
    ensures
        injection_text(content).len() == content.len() + 21,
        injection_text(content).subrange(0, 10) == seq![
            '<',
            'a',
            'r',
            'c',
            'a',
            'n',
            'u',
            'm',
            '>',
            '\n',
        ],
        injection_text(content).subrange(10, content.len() as int + 10) == content,
        injection_text(content).subrange(content.len() as int + 10, content.len() as int + 21)
            == seq!['\n', '<', '/', 'a', 'r', 'c', 'a', 'n', 'u', 'm', '>'],
{
    reveal_strlit("<arcanum>\n");
    reveal_strlit("\n</arcanum>");
    let n = content.len() as int;
    let m = injection_text(content);
    assert(m.subrange(0, 10) =~= seq!['<', 'a', 'r', 'c', 'a', 'n', 'u', 'm', '>', '\n']);
    assert(m.subrange(10, n + 10) =~= content);
    assert(m.subrange(n + 10, n + 21) =~= seq![
        '\n',
        '<',
        '/',
        'a',
        'r',
        'c',
        'a',
        'n',
        'u',
        'm',
        '>',
    ]);
}

/// A hierarchy names the instance behind its last `/` under the parent before it, both whole;
/// one without a `/` is an instance of its own.
pub proof fn law_hierarchy_is_cut_at_its_last_slash(parent: Seq<char>, instance: Seq<char>)
    requires
        !instance.contains('/'),
    ensures
        agent_of(parent + seq!['/'] + instance) == (Some(parent), instance),
        agent_of(instance) == (None::<Seq<char>>, instance),
{
    text::law_last_cut(parent, '/', instance);
}

/// A tick injects if and only if a skill is loaded and usage has grown by more than the
/// threshold since the baseline; it advances the baseline if and only if there is no baseline
/// or no skill; and else it does nothing.
pub proof fn law_growth_decides_the_tick(
    base: Option<i64>,
    new: i64,
    token_repeat: i64,
    has_skill: bool,
)
    ensures
        tick(base, new, token_repeat, has_skill) == Tick::Inject <==> has_skill && (
        base matches Some(b) && new - b > token_repeat),
        tick(base, new, token_repeat, has_skill) == Tick::Hold <==> has_skill && (
        base matches Some(b) && new - b <= token_repeat),
        tick(base, new, token_repeat, has_skill) == Tick::AdvanceBaseline <==> base is None
            || !has_skill,
        growth_fits(base, new, has_skill) <==> !has_skill || base is None || (base matches Some(b)
            && i64::MIN <= new - b <= i64::MAX),
{
}

/// Where a reading injects, a larger one would too, and so would a smaller threshold or an
/// earlier baseline.
pub proof fn law_more_growth_still_injects(
    base: i64,
    new: i64,
    token_repeat: i64,
    lower: i64,
    later: i64,
    threshold: i64,
)
    requires
        tick(Some(base), new, token_repeat, true) == Tick::Inject,
        lower <= base,
        new <= later,
        threshold <= token_repeat,
    ensures
        tick(Some(lower), later, threshold, true) == Tick::Inject,
{
}

/// A loop first waits for a total that differs from the stored baseline, and for any total
/// where there is none. It ends with nothing more to do when the subscription fails, and when
/// the row of an inactive instance is dropped.
pub proof fn law_loop_starts_and_ends(token_repeat: i64, base: Option<i64>)
    ensures
        loop_step(token_repeat, LoopState::Starting, LoopEventView::Baseline(base)) == (
            LoopState::Waiting,
            LoopActionView::Subscribe { previous: base },
        ),
        loop_step(token_repeat, LoopState::Waiting, LoopEventView::Ended) == (
            LoopState::Stopped,
            LoopActionView::Stop,
        ),
        loop_step(token_repeat, LoopState::Leaving, LoopEventView::Done) == (
            LoopState::Stopped,
            LoopActionView::Stop,
        ),
{
}

/// The loop puts into the queue the content that was read and nothing else, and never without
/// having read it; it reads the skill that is stored.
pub proof fn law_loop_injects_what_it_read(
    token_repeat: i64,
    state: LoopState,
    event: LoopEventView,
)
    requires
        expects(state, event),
    ensures
        loop_step(token_repeat, state, event).1 matches LoopActionView::Inject {
            content,
            baseline,
        } ==> event == LoopEventView::Content(Some(content)) && state == LoopState::Refreshing(
            baseline,
        ),
        loop_step(token_repeat, state, event).1 matches LoopActionView::ReadSkill(skill) ==> (
        event matches LoopEventView::Stored { skill: Some(loaded), .. } && loaded == skill),
{
}

/// The writes of the loop are those of its actions: the new baseline as it is, of its own
/// agent, and the drop of the row of its own agent.
pub proof fn law_writes_are_those_of_the_actions(
    content: Seq<char>,
    total: i64,
    aih: Seq<char>,
    previous: Option<i64>,
    skill: db::SkillRefView,
)
    ensures
        loop_write(LoopActionView::Inject { content, baseline: total }, aih) == Some(
            db::StoreWriteView::SetLastTotalTokens { aih, value: total },
        ),
        loop_write(LoopActionView::AdvanceBaseline(total), aih) == Some(
            db::StoreWriteView::SetLastTotalTokens { aih, value: total },
        ),
        loop_write(LoopActionView::DropRow, aih) == Some(db::StoreWriteView::Delete { aih }),
        loop_write(LoopActionView::ReadBaseline, aih) is None,
        loop_write(LoopActionView::Subscribe { previous }, aih) is None,
        loop_write(LoopActionView::ReadStored, aih) is None,
        loop_write(LoopActionView::ReadSkill(skill), aih) is None,
        loop_write(LoopActionView::Stop, aih) is None,
{
}

/// A loop takes every answer to what it asked for, as long as the growth that it looks at is a
/// number that an `i64` holds.
pub proof fn law_answers_are_expected(
    total: i64,
    base: Option<i64>,
    skill: Option<db::SkillRefView>,
    content: Option<Seq<char>>,
)
    ensures
        expects(LoopState::Starting, LoopEventView::Baseline(base)),
        expects(LoopState::Waiting, LoopEventView::Usage(total)),
        expects(LoopState::Waiting, LoopEventView::Inactive),
        expects(LoopState::Waiting, LoopEventView::Ended),
        (base is Some && skill is Some ==> i64::MIN <= total - base->0 <= i64::MAX) ==> expects(
            LoopState::Observed(total),
            LoopEventView::Stored { base, skill },
        ),
        expects(LoopState::Refreshing(total), LoopEventView::Content(content)),
        expects(LoopState::Settling(total), LoopEventView::Done),
        expects(LoopState::Leaving, LoopEventView::Done),
{
}

/// What is said of an event or an action is said of what it holds.
pub proof fn law_views_hold_the_contents(event: LoopEvent, action: LoopAction)
    ensures
        match event {
            LoopEvent::Baseline(b) => event@ == LoopEventView::Baseline(b),
            LoopEvent::Usage(n) => event@ == LoopEventView::Usage(n),
            LoopEvent::Inactive => event@ is Inactive,
            LoopEvent::Ended => event@ is Ended,
            LoopEvent::Stored { base, skill } => event@ == (LoopEventView::Stored {
                base,
                skill: match skill {
                    Some(s) => Some(s@),
                    None => None,
                },
            }),
            LoopEvent::Content(None) => event@ == LoopEventView::Content(None),
            LoopEvent::Content(Some(t)) => event@ == LoopEventView::Content(Some(t@)),
            LoopEvent::Done => event@ is Done,
        },
        match action {
            LoopAction::ReadBaseline => action@ is ReadBaseline,
            LoopAction::Subscribe { previous } => action@ == (LoopActionView::Subscribe {
                previous,
            }),
            LoopAction::ReadStored => action@ is ReadStored,
            LoopAction::ReadSkill(s) => action@ == LoopActionView::ReadSkill(s@),
            LoopAction::Inject { content, baseline } => action@ == (LoopActionView::Inject {
                content: content@,
                baseline,
            }),
            LoopAction::AdvanceBaseline(n) => action@ == LoopActionView::AdvanceBaseline(n),
            LoopAction::DropRow => action@ is DropRow,
            LoopAction::Stop => action@ is Stop,
        },
{
}

}
