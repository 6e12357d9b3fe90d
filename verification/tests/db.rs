use arcanum::db::{last_total_tokens, notification_payload, skill_ref, MONITOR_CHANNEL};

fn some(s: &str) -> Option<String> {
    Some(s.to_string())
}

#[test]
fn a_skill_is_loaded_where_all_columns_are_set() {
    let skill = skill_ref(Some((some("lab"), some("/s"), some("r")))).expect("a loaded skill");
    assert_eq!(skill.laboratory_id, "lab");
    assert_eq!(skill.skill_path, "/s");
    assert_eq!(skill.response_id, "r");
    assert!(skill_ref(Some((None, some("/s"), some("r")))).is_none());
    assert!(skill_ref(Some((some("lab"), None, some("r")))).is_none());
    assert!(skill_ref(Some((some("lab"), some("/s"), None))).is_none());
    assert!(skill_ref(None).is_none());
}

#[test]
fn a_baseline_is_read_where_the_column_is_set() {
    assert_eq!(last_total_tokens(Some(Some(-3))), Some(-3));
    assert_eq!(last_total_tokens(Some(None)), None);
    assert_eq!(last_total_tokens(None), None);
}

#[test]
fn a_notification_gives_both_members_back() {
    for (aih, repeat) in [("top/agent", 5000), ("quo\"te\n\u{1f980}", -1), ("", i64::MAX)] {
        let payload = notification_payload(aih, repeat);
        let read: serde_json::Value = serde_json::from_str(&payload).expect("JSON");
        assert_eq!(read["aih"].as_str(), Some(aih));
        assert_eq!(read["token_repeat"].as_i64(), Some(repeat));
        assert_eq!(read.as_object().map(|o| o.len()), Some(2));
    }
    assert_eq!(notification_payload("a/b", 7), r#"{"aih":"a/b","token_repeat":7}"#);
}

#[test]
fn the_channel_is_stable() {
    assert_eq!(MONITOR_CHANNEL, "arcanum_monitor");
}
