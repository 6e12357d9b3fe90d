use arcanum::db::SkillRef;
use arcanum::registry::MonitorService;

fn skill() -> Result<Option<SkillRef>, String> {
    Ok(Some(SkillRef {
        laboratory_id: "lab".to_string(),
        skill_path: "/s".to_string(),
        response_id: "r".to_string(),
    }))
}

#[test]
fn a_start_replaces_whichever_monitor_was_running() {
    let mut monitors = MonitorService::new();
    let first = monitors.spawn("a".to_string());
    assert_eq!(first.generation, 0);
    assert_eq!(first.replaced, None);
    let other = monitors.spawn("b".to_string());
    assert_eq!(other.generation, 1);
    assert_eq!(other.replaced, None);
    let second = monitors.spawn("a".to_string());
    assert_eq!(second.generation, 2);
    assert_eq!(second.replaced, Some(0));
    assert_eq!(monitors.stop("a"), Some(2));
    assert_eq!(monitors.stop("b"), Some(1));
}

#[test]
fn a_replaced_loop_deregisters_nothing() {
    let mut monitors = MonitorService::new();
    let first = monitors.spawn("a".to_string());
    let second = monitors.spawn("a".to_string());
    assert!(!monitors.exit("a", first.generation));
    assert!(!monitors.exit("b", second.generation));
    assert!(monitors.exit("a", second.generation));
    assert!(!monitors.exit("a", second.generation));
    assert_eq!(monitors.stop("a"), None);
}

#[test]
fn stopping_says_whether_a_monitor_was_running() {
    let mut monitors = MonitorService::new();
    assert_eq!(monitors.stop("a"), None);
    monitors.spawn("a".to_string());
    assert_eq!(monitors.stop("a"), Some(0));
    assert_eq!(monitors.stop("a"), None);
    let again = monitors.spawn("a".to_string());
    assert_eq!(again.generation, 1);
    assert_eq!(again.replaced, None);
}

#[test]
fn begin_starts_a_monitor_for_a_loaded_skill() {
    let mut monitors = MonitorService::new();
    let spawned = monitors.on_begin("a", &skill(), &Ok(Some(7))).expect("a loaded skill");
    assert_eq!(spawned.generation, 0);
    assert_eq!(spawned.replaced, None);
    let spawned = monitors.on_begin("a", &skill(), &Ok(Some(7))).expect("a loaded skill");
    assert_eq!(spawned.replaced, Some(0));
}

#[test]
fn begin_starts_nothing_without_a_skill_or_after_a_failed_read() {
    let mut monitors = MonitorService::new();
    let down = || "down".to_string();
    assert!(monitors.on_begin("a", &Ok(None), &Ok(None)).is_none());
    assert!(monitors.on_begin("a", &Ok(None), &Ok(Some(7))).is_none());
    assert!(monitors.on_begin("a", &Err(down()), &Ok(Some(7))).is_none());
    assert!(monitors.on_begin("a", &skill(), &Err(down())).is_none());
    assert_eq!(monitors.stop("a"), None);
}

#[test]
fn a_replaced_loop_deregisters_nothing_however_late_it_exits() {
    let mut monitors = MonitorService::new();
    let first = monitors.spawn("a".to_string());
    monitors.spawn("b".to_string());
    let second = monitors.spawn("a".to_string());
    monitors.spawn("c".to_string());
    monitors.stop("b");
    assert!(!monitors.exit("a", first.generation));
    assert_eq!(monitors.stop("a"), Some(second.generation));
    assert!(!monitors.exit("a", first.generation));
    let third = monitors.spawn("a".to_string());
    assert!(!monitors.exit("a", first.generation));
    assert!(!monitors.exit("a", second.generation));
    assert!(monitors.exit("a", third.generation));
}
