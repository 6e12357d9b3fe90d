//! Which monitors are running: at most one per agent instance hierarchy (AIH).

use dashmap::DashMap;
use vstd::prelude::*;

use crate::db::SkillRef;
use crate::monitor;

verus! {

/// The map that holds the running monitors.
#[verifier::external_type_specification]
#[verifier::external_body]
#[verifier::reject_recursive_types(K)]
#[verifier::reject_recursive_types(V)]
#[verifier::reject_recursive_types(S)]
pub struct ExDashMap<K, V, S>(dashmap::DashMap<K, V, S>);

/// What the map holds: the value stored under each key.
pub uninterp spec fn map_contents(map: DashMap<String, u64>) -> Map<Seq<char>, u64>;

/// `DashMap::new` of dashmap: an empty map.
#[verifier::external_body]
fn map_new() -> (r: DashMap<String, u64>)
    ensures
        (map_contents(r) == Map::<Seq<char>, u64>::empty()),
{
    DashMap::new()
}

/// `DashMap::insert` of dashmap: the value is stored under the key, and the value that was
/// stored under it before, if there was one, is returned.
#[verifier::external_body]
fn map_insert(map: &mut DashMap<String, u64>, key: String, value: u64) -> (r: Option<u64>)
    ensures
        map_contents(*final(map)) == map_contents(*old(map)).insert(key@, value),
        r == stored(map_contents(*old(map)), key@),
{
    map.insert(key, value)
}

/// `DashMap::get` of dashmap: the value stored under the key, if there is one.
#[verifier::external_body]
fn map_get(map: &DashMap<String, u64>, key: &str) -> (r: Option<u64>)
    ensures
        r == stored(map_contents(*map), key@),
{
    map.get(key).map(|slot| *slot.value())
}

/// `DashMap::remove` of dashmap: nothing is stored under the key any more, and the value
/// that was stored under it, if there was one, is returned.
#[verifier::external_body]
fn map_remove(map: &mut DashMap<String, u64>, key: &str) -> (r: Option<u64>)
    ensures
        map_contents(*final(map)) == map_contents(*old(map)).remove(key@),
        r == stored(map_contents(*old(map)), key@),
{
    map.remove(key).map(|entry| entry.1)
}

/// The value stored under a key.
pub open spec fn stored(map: Map<Seq<char>, u64>, key: Seq<char>) -> Option<u64> {
    if map.contains_key(key) {
        Some(map[key])
    } else {
        None
    }
}

/// The running monitors. Two triggers start one: MCP begin, if a skill is loaded, and the
/// load of a skill. Starting a monitor for an AIH replaces whichever was running for it.
pub struct MonitorService {
    /// Live monitors by AIH, each one as the generation that started it, so that a loop only
    /// deregisters itself if a newer start has not replaced it.
    running: DashMap<String, u64>,
    next_generation: u64,
}

/// What a [`MonitorService`] holds.
pub struct MonitorsView {
    pub running: Map<Seq<char>, u64>,
    pub next_generation: u64,
}

impl View for MonitorService {
    type V = MonitorsView;

    closed spec fn view(&self) -> MonitorsView {
        MonitorsView {
            running: map_contents(self.running),
            next_generation: self.next_generation,
        }
    }
}

/// A monitor that was started.
pub struct Spawned {
    /// The generation of the new monitor.
    pub generation: u64,
    /// The generation of the monitor that it replaces, which is to be killed.
    pub replaced: Option<u64>,
}

impl MonitorsView {
    /// The generation after this one. The count starts over at its end.
    pub open spec fn following(self) -> u64 {
        if self.next_generation < u64::MAX {
            (self.next_generation + 1) as u64
        } else {
            0
        }
    }

    /// The monitors after one was started for `aih`.
    pub open spec fn spawned(self, aih: Seq<char>) -> MonitorsView {
        MonitorsView {
            running: self.running.insert(aih, self.next_generation),
            next_generation: self.following(),
        }
    }

    /// The monitors after the loop of `aih` that was started as `generation` ran out.
    pub open spec fn exited(self, aih: Seq<char>, generation: u64) -> MonitorsView {
        if stored(self.running, aih) == Some(generation) {
            self.stopped(aih)
        } else {
            self
        }
    }

    /// The monitors after that of `aih` was stopped.
    pub open spec fn stopped(self, aih: Seq<char>) -> MonitorsView {
        MonitorsView { running: self.running.remove(aih), ..self }
    }

    /// No two monitors share a generation, and all were started before the next one.
    pub open spec fn well_formed(self) -> bool {
        &&& forall|a: Seq<char>| #[trigger]
            self.running.contains_key(a) ==> self.running[a] < self.next_generation
        &&& forall|a: Seq<char>, b: Seq<char>|
            #![trigger self.running.contains_key(a), self.running.contains_key(b)]
            self.running.contains_key(a) && self.running.contains_key(b) && a != b
                ==> self.running[a] != self.running[b]
    }
}

impl MonitorService {
    /// No monitor is running.
    pub fn new() -> (r: MonitorService)
        ensures
            r@ == (MonitorsView { running: Map::empty(), next_generation: 0 }),
            r@.well_formed(),
    {
        MonitorService { running: map_new(), next_generation: 0 }
    }

    /// Register a fresh monitor for `aih`; the monitor already running for it, if there is
    /// one, is replaced and is to be killed.
    pub fn spawn(&mut self, aih: String) -> (r: Spawned)
        ensures
            final(self)@ == old(self)@.spawned(aih@),
            r.generation == old(self)@.next_generation,
            r.replaced == stored(old(self)@.running, aih@),
    {
        let generation: u64 = self.next_generation;
        self.next_generation = if generation < u64::MAX {
            generation + 1
        } else {
            0
        };
        let replaced = map_insert(&mut self.running, aih, generation);
        Spawned { generation, replaced }
    }

    /// The begin trigger: start a monitor for `aih`, given the loaded skill and the token
    /// baseline as they were read, but only if a skill is loaded. A loaded skill always has a
    /// baseline, which a load records with it. After a failed read nothing is started, and a
    /// later trigger tries again.
    pub fn on_begin(
        &mut self,
        aih: &str,
        skill: &Result<Option<SkillRef>, String>,
        baseline: &Result<Option<i64>, String>,
    ) -> (r: Option<Spawned>)
        requires
            (skill matches Ok(Some(_))) ==> !(baseline matches Ok(None)),
        ensures
            match (*skill, *baseline) {
                (Ok(Some(_)), Ok(Some(_))) => {
                    &&& final(self)@ == old(self)@.spawned(aih@)
                    &&& r matches Some(s)
                    &&& s.generation == old(self)@.next_generation
                    &&& s.replaced == stored(old(self)@.running, aih@)
                },
                _ => final(self)@ == old(self)@ && r is None,
            },
    {
        if monitor::begin_wants_monitor(skill) && monitor::begin_starts_monitor(baseline) {
            Some(self.spawn(aih.to_string()))
        } else {
            None
        }
    }

    /// Deregister the loop of `aih` that was started as `generation`, at its exit, but only
    /// if a newer start has not replaced it. Returns whether it was deregistered.
    pub fn exit(&mut self, aih: &str, generation: u64) -> (r: bool)
        ensures
            final(self)@ == old(self)@.exited(aih@, generation),
            r == (stored(old(self)@.running, aih@) == Some(generation)),
    {
        match map_get(&self.running, aih) {
            Some(current) => {
                if current == generation {
                    map_remove(&mut self.running, aih);
                    true
                } else {
                    false
                }
            },
            None => false,
        }
    }

    /// Deregister the monitor running for `aih`, which is to be killed. Returns its
    /// generation, if a monitor was running.
    pub fn stop(&mut self, aih: &str) -> (r: Option<u64>)
        ensures
            final(self)@ == old(self)@.stopped(aih@),
            r == stored(old(self)@.running, aih@),
    {
        map_remove(&mut self.running, aih)
    }
}

// ---------------------------------------------------------------------------------------
// Laws
// ---------------------------------------------------------------------------------------

/// Every operation keeps the generations of running monitors distinct and in the past, until
/// the count of generations starts over.
pub proof fn law_generations_stay_distinct(m: MonitorsView, aih: Seq<char>, generation: u64)
    requires
        m.well_formed(),
    ensures
        m.next_generation < u64::MAX ==> m.spawned(aih).well_formed(),
        m.exited(aih, generation).well_formed(),
        m.stopped(aih).well_formed(),
{
    assert forall|a: Seq<char>| #[trigger] m.stopped(aih).running.contains_key(a) implies
        m.running.contains_key(a) by {}
    if m.next_generation < u64::MAX {
        let s = m.spawned(aih);
        assert forall|a: Seq<char>| #[trigger] s.running.contains_key(a) implies a == aih
            || m.running.contains_key(a) by {}
    }
}

/// A loop that a newer start replaced deregisters nothing at its exit: whatever its
/// generation, it was started before.
pub proof fn law_replaced_loop_deregisters_nothing(
    m: MonitorsView,
    aih: Seq<char>,
    generation: u64,
)
    requires
        m.well_formed(),
        generation < m.next_generation,
    ensures
        m.spawned(aih).exited(aih, generation) == m.spawned(aih),
{
}

/// An operation on the monitors.
pub enum MonitorOperation {
    Spawn { aih: Seq<char> },
    Exit { aih: Seq<char>, generation: u64 },
    Stop { aih: Seq<char> },
}

/// The monitors after several operations, the first one first.
pub open spec fn monitors_after(m: MonitorsView, operations: Seq<MonitorOperation>) -> MonitorsView
    decreases operations.len(),
{
    if operations.len() == 0 {
        m
    } else {
        let before = monitors_after(m, operations.drop_last());
        match operations.last() {
            MonitorOperation::Spawn { aih } => before.spawned(aih),
            MonitorOperation::Exit { aih, generation } => before.exited(aih, generation),
            MonitorOperation::Stop { aih } => before.stopped(aih),
        }
    }
}

/// A replaced loop deregisters nothing however late it exits: not after the start that
/// replaced it, and not after whatever is done to this agent's and other agents' monitors
/// since, until the count of generations starts over.
pub proof fn law_replaced_loop_stays_replaced(
    m: MonitorsView,
    aih: Seq<char>,
    generation: u64,
    since: Seq<MonitorOperation>,
)
    requires
        m.well_formed(),
        generation < m.next_generation,
        m.next_generation + 1 + since.len() <= u64::MAX,
    ensures
        ({
            let later = monitors_after(m.spawned(aih), since);
            &&& later.exited(aih, generation) == later
            &&& later.well_formed()
            &&& m.next_generation < later.next_generation <= m.next_generation + 1 + since.len()
        }),
    decreases since.len(),
{
    if since.len() == 0 {
        law_generations_stay_distinct(m, aih, generation);
    } else {
        law_replaced_loop_stays_replaced(m, aih, generation, since.drop_last());
        let before = monitors_after(m.spawned(aih), since.drop_last());
        match since.last() {
            MonitorOperation::Spawn { aih: a } => law_generations_stay_distinct(before, a, 0),
            MonitorOperation::Exit { aih: a, generation: g } => law_generations_stay_distinct(
                before,
                a,
                g,
            ),
            MonitorOperation::Stop { aih: a } => law_generations_stay_distinct(before, a, 0),
        }
    }
}

/// A loop that was not replaced deregisters itself at its exit, and is then not running.
pub proof fn law_exited_loop_is_not_running(m: MonitorsView, aih: Seq<char>)
    ensures
        !m.spawned(aih).exited(aih, m.next_generation).running.contains_key(aih),
{
}

/// At most one monitor runs per AIH: after a start the one running is the one just started,
/// and the monitors of other agents are untouched.
pub proof fn law_start_replaces_only_its_own(m: MonitorsView, aih: Seq<char>, other: Seq<char>)
    requires
        other != aih,
    ensures
        stored(m.spawned(aih).running, aih) == Some(m.next_generation),
        stored(m.spawned(aih).running, other) == stored(m.running, other),
        stored(m.stopped(aih).running, aih) is None,
        stored(m.stopped(aih).running, other) == stored(m.running, other),
{
}

/// Generations are counted one by one, from one start to the next, and start over at the end
/// of the count; an exit and a stop leave the count alone.
pub proof fn law_generations_are_counted(m: MonitorsView, aih: Seq<char>, generation: u64)
    ensures
        m.next_generation < u64::MAX ==> m.spawned(aih).next_generation == m.next_generation + 1,
        m.next_generation == u64::MAX ==> m.spawned(aih).next_generation == 0,
        m.exited(aih, generation).next_generation == m.next_generation,
        m.stopped(aih).next_generation == m.next_generation,
{
}

/// The exit of a loop changes its own agent's entry at most, and that one if and only if it
/// is the loop's own.
pub proof fn law_exit_changes_only_its_own(
    m: MonitorsView,
    aih: Seq<char>,
    generation: u64,
    other: Seq<char>,
)
    ensures
        other != aih ==> (m.exited(aih, generation).running.contains_key(other)
            <==> m.running.contains_key(other)),
        other != aih && m.running.contains_key(other) ==> m.exited(
            aih,
            generation,
        ).running[other] == m.running[other],
        m.exited(aih, generation).running.contains_key(aih) <==> m.running.contains_key(aih)
            && m.running[aih] != generation,
        m.exited(aih, generation).running.contains_key(aih) ==> m.exited(
            aih,
            generation,
        ).running[aih] == m.running[aih],
{
}

/// Starts and stops are seen in the entries themselves: a start enters the generation that it
/// was given, a stop leaves no entry, and the entries of others stay.
pub proof fn law_entries_after_start_and_stop(m: MonitorsView, aih: Seq<char>, other: Seq<char>)
    ensures
        m.spawned(aih).running.contains_key(aih),
        m.spawned(aih).running[aih] == m.next_generation,
        !m.stopped(aih).running.contains_key(aih),
        other != aih ==> m.spawned(aih).running.contains_key(other) == m.running.contains_key(
            other,
        ),
        other != aih ==> m.stopped(aih).running.contains_key(other) == m.running.contains_key(
            other,
        ),
        other != aih && m.running.contains_key(other) ==> m.spawned(aih).running[other]
            == m.running[other] && m.stopped(aih).running[other] == m.running[other],
{
}

/// What is stored under a key is its entry, and nothing where there is none.
pub proof fn law_stored_is_the_entry(entries: Map<Seq<char>, u64>, key: Seq<char>)
    ensures
        entries.contains_key(key) ==> stored(entries, key) == Some(entries[key]),
        !entries.contains_key(key) ==> stored(entries, key) is None,
{
}

}
