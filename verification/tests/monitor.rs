use arcanum::db::{SkillRef, StoreWrite};
use arcanum::monitor::{
    begin_starts_monitor, begin_wants_monitor, decide, enqueue_request, format_injection,
    subscription_event, LoopAction, LoopEvent, LoopState, Tick, ENQUEUE_KEY,
};

fn skill() -> SkillRef {
    SkillRef {
        laboratory_id: "lab".to_string(),
        skill_path: "/skills/greeting".to_string(),
        response_id: "r-1".to_string(),
    }
}

fn stored(base: Option<i64>, skill: Option<SkillRef>) -> LoopEvent {
    LoopEvent::Stored { base, skill }
}

#[test]
fn injection_wraps_content_in_arcanum_tags() {
    assert_eq!(
        format_injection("Greeting skill: say hello."),
        "<arcanum>\nGreeting skill: say hello.\n</arcanum>"
    );
}

#[test]
fn enqueue_key_is_stable() {
    // A stable key is what makes a newer injection replace any still-queued earlier one, so
    // reloading a skill mid-session leaves only the latest injection queued.
    assert_eq!(ENQUEUE_KEY, "arcanum-skill");
}

#[test]
fn no_skill_advances_baseline() {
    // Regardless of the counts, with no skill loaded we just advance.
    assert_eq!(decide(None, 999, 10, false), Tick::AdvanceBaseline);
    assert_eq!(decide(Some(100), 100_000, 10, false), Tick::AdvanceBaseline);
}

#[test]
fn first_observation_records_baseline_without_injecting() {
    // Injection is a refresher, not an initializer: the first tick after a load records the
    // baseline (the skill was already delivered in load_skill's tool response); it does not
    // inject.
    assert_eq!(decide(None, 0, 1000, true), Tick::AdvanceBaseline);
    assert_eq!(decide(None, 50_000, 1000, true), Tick::AdvanceBaseline);
}

#[test]
fn threshold_is_strictly_greater() {
    // base=100, repeat=50.
    assert_eq!(decide(Some(100), 140, 50, true), Tick::Hold); // +40  < 50
    assert_eq!(decide(Some(100), 150, 50, true), Tick::Hold); // +50 == 50 (not >)
    assert_eq!(decide(Some(100), 151, 50, true), Tick::Inject); // +51  > 50
    assert_eq!(decide(Some(100), 200, 50, true), Tick::Inject); // +100 > 50
}

#[test]
fn a_shrinking_total_holds() {
    assert_eq!(decide(Some(100), 0, 50, true), Tick::Hold);
    assert_eq!(decide(Some(0), i64::MAX, i64::MAX, true), Tick::Hold);
    assert_eq!(decide(Some(i64::MIN), i64::MAX, 0, false), Tick::AdvanceBaseline);
    assert_eq!(decide(Some(5), 5, -1, true), Tick::Inject);
}

#[test]
fn a_message_goes_to_the_instance_under_its_parent() {
    let r = enqueue_request("top/mid/agent", "hello");
    assert_eq!(r.parent.as_deref(), Some("top/mid"));
    assert_eq!(r.instance, "agent");
    assert_eq!(r.message, "<arcanum>\nhello\n</arcanum>");
    assert_eq!(r.key, ENQUEUE_KEY);
    let r = enqueue_request("agent", "");
    assert_eq!(r.parent, None);
    assert_eq!(r.instance, "agent");
    assert_eq!(r.message, "<arcanum>\n\n</arcanum>");
    let r = enqueue_request("/", "x");
    assert_eq!(r.parent.as_deref(), Some(""));
    assert_eq!(r.instance, "");
}

#[test]
fn the_loop_starts_from_the_stored_baseline() {
    let (state, action) = LoopState::start();
    assert!(matches!(action, LoopAction::ReadBaseline));
    let (state, action) = state.step(50, LoopEvent::Baseline(Some(100)));
    assert_eq!(state, LoopState::Waiting);
    assert!(matches!(action, LoopAction::Subscribe { previous: Some(100) }));
    let (_, action) = LoopState::Starting.step(50, LoopEvent::Baseline(None));
    assert!(matches!(action, LoopAction::Subscribe { previous: None }));
}

#[test]
fn growth_past_the_threshold_refreshes_the_skill() {
    let (state, action) = LoopState::Waiting.step(50, LoopEvent::Usage(151));
    assert_eq!(state, LoopState::Observed(151));
    assert!(matches!(action, LoopAction::ReadStored));
    let (state, action) = state.step(50, stored(Some(100), Some(skill())));
    assert_eq!(state, LoopState::Refreshing(151));
    match action {
        LoopAction::ReadSkill(s) => {
            assert_eq!(s.laboratory_id, "lab");
            assert_eq!(s.skill_path, "/skills/greeting");
            assert_eq!(s.response_id, "r-1");
        }
        _ => panic!("the skill is read"),
    }
    let (state, action) = state.step(50, LoopEvent::Content(Some("hello".to_string())));
    assert_eq!(state, LoopState::Settling(151));
    match &action {
        LoopAction::Inject { content, baseline } => {
            assert_eq!(content, "hello");
            assert_eq!(*baseline, 151);
        }
        _ => panic!("the skill is injected"),
    }
    match action.store_write("top/agent") {
        Some(StoreWrite::SetLastTotalTokens { aih, value }) => {
            assert_eq!(aih, "top/agent");
            assert_eq!(value, 151);
        }
        _ => panic!("the baseline is advanced"),
    }
    let (state, action) = state.step(50, LoopEvent::Done);
    assert_eq!(state, LoopState::Waiting);
    assert!(matches!(action, LoopAction::Subscribe { previous: Some(151) }));
}

#[test]
fn a_skill_that_cannot_be_read_leaves_the_baseline() {
    let (state, action) = LoopState::Refreshing(151).step(50, LoopEvent::Content(None));
    assert_eq!(state, LoopState::Waiting);
    assert!(matches!(action, LoopAction::Subscribe { previous: Some(151) }));
    assert!(action.store_write("a").is_none());
}

#[test]
fn growth_within_the_threshold_waits_on() {
    let (state, action) = LoopState::Observed(150).step(50, stored(Some(100), Some(skill())));
    assert_eq!(state, LoopState::Waiting);
    assert!(matches!(action, LoopAction::Subscribe { previous: Some(150) }));
}

#[test]
fn without_a_skill_or_baseline_the_baseline_advances() {
    for event in [stored(Some(100), None), stored(None, Some(skill())), stored(None, None)] {
        let (state, action) = LoopState::Observed(500).step(50, event);
        assert_eq!(state, LoopState::Settling(500));
        assert!(matches!(action, LoopAction::AdvanceBaseline(500)));
        assert!(matches!(
            action.store_write("a"),
            Some(StoreWrite::SetLastTotalTokens { value: 500, .. })
        ));
    }
}

#[test]
fn an_inactive_instance_drops_its_row_and_stops() {
    let (state, action) = LoopState::Waiting.step(50, LoopEvent::Inactive);
    assert_eq!(state, LoopState::Leaving);
    assert!(matches!(action, LoopAction::DropRow));
    match action.store_write("top/agent") {
        Some(StoreWrite::Delete { aih }) => assert_eq!(aih, "top/agent"),
        _ => panic!("the row is dropped"),
    }
    let (state, action) = state.step(50, LoopEvent::Done);
    assert_eq!(state, LoopState::Stopped);
    assert!(matches!(action, LoopAction::Stop));
}

#[test]
fn a_failed_subscription_stops_without_dropping_the_row() {
    let (state, action) = LoopState::Waiting.step(50, LoopEvent::Ended);
    assert_eq!(state, LoopState::Stopped);
    assert!(matches!(action, LoopAction::Stop));
    assert!(action.store_write("a").is_none());
}

/// Run the loop over readings of an agent with a loaded, readable skill.
fn injections(repeat: i64, base: i64, totals: &[i64]) -> Vec<i64> {
    let mut base = base;
    let mut seen = Vec::new();
    let mut state = LoopState::Waiting;
    for total in totals {
        let mut event = LoopEvent::Usage(*total);
        loop {
            let (next, action) = state.step(repeat, event);
            state = next;
            event = match action {
                LoopAction::ReadStored => stored(Some(base), Some(skill())),
                LoopAction::ReadSkill(_) => LoopEvent::Content(Some("x".to_string())),
                LoopAction::Inject { baseline, .. } => {
                    seen.push(baseline);
                    base = baseline;
                    LoopEvent::Done
                }
                LoopAction::Subscribe { previous } => {
                    assert_eq!(previous, Some(*total));
                    break;
                }
                _ => panic!("not in a tick with a loaded skill"),
            };
        }
    }
    seen
}

#[test]
fn injections_are_spaced_by_more_than_the_threshold() {
    assert_eq!(
        injections(50, 100, &[120, 150, 151, 160, 201, 202, 400, 430]),
        vec![151, 202, 400]
    );
}

#[test]
fn nothing_is_injected_before_growth() {
    assert_eq!(injections(50, 100, &[100, 110, 150, 90, 150]), Vec::<i64>::new());
}

#[test]
fn begin_monitors_only_a_loaded_skill() {
    assert!(begin_wants_monitor(&Ok(Some(skill()))));
    assert!(!begin_wants_monitor(&Ok(None)));
    assert!(!begin_wants_monitor(&Err("down".to_string())));
    assert!(begin_starts_monitor(&Ok(Some(0))));
    assert!(!begin_starts_monitor(&Err("down".to_string())));
}

#[test]
fn a_subscription_tells_a_total_or_an_end() {
    assert!(matches!(subscription_event(Some(Some(7))), LoopEvent::Usage(7)));
    assert!(matches!(subscription_event(Some(None)), LoopEvent::Inactive));
    assert!(matches!(subscription_event(None), LoopEvent::Ended));
}
