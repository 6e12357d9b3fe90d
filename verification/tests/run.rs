use arcanum::db::notification_payload;
use arcanum::mcp::request::JsonMember;
use arcanum::mcp::run::{
    connect_ip, connect_url, notification_from, published, received, sent_notification, HostIp,
    ListenerAction, ListenerEvent, ListenerState, MonitorNotification, BIND_ADDRESS,
    LOCK_DIRECTORY, LOCK_KEY,
};

fn notification() -> MonitorNotification {
    MonitorNotification { aih: "top/agent".to_string(), token_repeat: 7 }
}

#[test]
fn an_unspecified_address_is_reached_on_loopback() {
    assert_eq!(connect_ip(HostIp::V4([0, 0, 0, 0])), HostIp::V4([127, 0, 0, 1]));
    assert_eq!(
        connect_ip(HostIp::V6([0, 0, 0, 0, 0, 0, 0, 0])),
        HostIp::V6([0, 0, 0, 0, 0, 0, 0, 1])
    );
}

#[test]
fn a_specified_address_is_kept() {
    for ip in [
        HostIp::V4([127, 0, 0, 1]),
        HostIp::V4([0, 0, 0, 9]),
        HostIp::V4([10, 0, 0, 0]),
        HostIp::V6([0, 0, 0, 0, 0, 0, 0, 1]),
        HostIp::V6([0xfe80, 0, 0, 0, 0, 0, 0, 0]),
    ] {
        assert_eq!(connect_ip(ip), ip);
    }
}

#[test]
fn a_url_names_its_address() {
    assert_eq!(connect_url("127.0.0.1:4000"), "http://127.0.0.1:4000");
    assert_eq!(connect_url("[::1]:4000"), "http://[::1]:4000");
}

#[test]
fn a_lock_that_another_instance_holds_is_an_error() {
    assert_eq!(published(true), Ok(()));
    assert_eq!(
        published(false),
        Err("another arcanum instance already holds the mcp lock for this state".to_string())
    );
    assert_eq!((BIND_ADDRESS, LOCK_DIRECTORY, LOCK_KEY), ("127.0.0.1:0", "locks", "mcp"));
}

#[test]
fn each_notification_runs_the_begin_trigger() {
    let (state, action) = ListenerState::start();
    assert!(matches!(action, ListenerAction::Connect));
    let (state, action) = state.step(ListenerEvent::Connected);
    assert!(matches!(action, ListenerAction::Receive));
    let (state, action) = state.step(ListenerEvent::Notified(Some(notification())));
    assert_eq!(state, ListenerState::Beginning);
    match action {
        ListenerAction::Begin(n) => {
            assert_eq!(n.aih, "top/agent");
            assert_eq!(n.token_repeat, 7);
        }
        _ => panic!("the begin trigger runs"),
    }
    let (state, action) = state.step(ListenerEvent::Done);
    assert_eq!(state, ListenerState::Receiving);
    assert!(matches!(action, ListenerAction::Receive));
}

#[test]
fn an_unreadable_payload_is_passed_over() {
    let (state, action) = ListenerState::Receiving.step(ListenerEvent::Notified(None));
    assert_eq!(state, ListenerState::Receiving);
    assert!(matches!(action, ListenerAction::Receive));
}

#[test]
fn a_dropped_connection_is_made_anew() {
    let (state, action) = ListenerState::Receiving.step(ListenerEvent::Dropped);
    assert_eq!(state, ListenerState::Connecting);
    assert!(matches!(action, ListenerAction::Connect));
    let (state, action) = state.step(ListenerEvent::Unreachable);
    assert_eq!(state, ListenerState::Pausing);
    assert!(matches!(action, ListenerAction::Pause(1)));
    let (state, action) = state.step(ListenerEvent::Done);
    assert_eq!(state, ListenerState::Connecting);
    assert!(matches!(action, ListenerAction::Connect));
}

fn sent(payload: &str) -> Option<(String, i64)> {
    sent_notification(payload).map(|n| (n.aih, n.token_repeat))
}

fn taken(payload: &str, parsed: Option<MonitorNotification>) -> Option<(String, i64)> {
    match received(payload, parsed) {
        ListenerEvent::Notified(n) => n.map(|n| (n.aih, n.token_repeat)),
        _ => panic!("a payload was received"),
    }
}

#[test]
fn a_sent_notification_is_read_back() {
    for (aih, repeat) in [
        ("top/agent", 5000),
        ("quo\"te\\\n\u{1f980}", -1),
        ("", i64::MAX),
        ("a", i64::MIN),
        ("a", 0),
    ] {
        let payload = notification_payload(aih, repeat);
        assert_eq!(sent(&payload), Some((aih.to_string(), repeat)));
        assert_eq!(taken(&payload, None), Some((aih.to_string(), repeat)));
        let parsed = MonitorNotification { aih: aih.to_string(), token_repeat: repeat };
        assert_eq!(taken(&payload, Some(parsed)), Some((aih.to_string(), repeat)));
    }
}

#[test]
fn another_payload_is_what_it_is_parsed_as() {
    for payload in [
        "",
        "not json",
        "{}",
        "7",
        r#"{"aih":"a"}"#,
        r#"{"token_repeat":1}"#,
        r#"{"aih":1,"token_repeat":1}"#,
        r#"{"aih":"a","token_repeat":"1"}"#,
        r#"{"aih":"a","token_repeat":1.5}"#,
        r#"{"aih":"a","token_repeat":9223372036854775808}"#,
        r#"{"aih":"a","aih":"b","token_repeat":1}"#,
        r#"{"aih":"a","token_repeat":1,"other":1e999}"#,
        r#"{"token_repeat":1,"aih":"a"}"#,
        r#"{"aih":"a", "token_repeat":1}"#,
        r#"["a",1]"#,
        r#"{"aih":"a","token_repeat":1"#,
    ] {
        assert_eq!(sent(payload), None, "{payload}");
        assert_eq!(taken(payload, None), None, "{payload}");
        assert_eq!(
            taken(payload, Some(notification())),
            Some(("top/agent".to_string(), 7)),
            "{payload}"
        );
    }
}

#[test]
fn a_notification_is_a_text_and_a_signed_number() {
    let text = || Some(JsonMember::Text("a".to_string()));
    let number = |unsigned, signed| Some(JsonMember::Number { unsigned, signed });
    let n = notification_from(text(), number(None, Some(-2))).expect("both members");
    assert_eq!((n.aih.as_str(), n.token_repeat), ("a", -2));
    assert!(notification_from(text(), number(Some(u64::MAX), None)).is_none());
    assert!(notification_from(text(), text()).is_none());
    assert!(notification_from(number(Some(1), Some(1)), number(Some(1), Some(1))).is_none());
    assert!(notification_from(None, number(Some(1), Some(1))).is_none());
    assert!(notification_from(text(), None).is_none());
}

#[test]
fn sent_notifications_are_begun_in_order_and_others_passed_over() {
    let payloads = [
        notification_payload("a", 1),
        "noise".to_string(),
        notification_payload("b", -2),
        "{}".to_string(),
        notification_payload("a", 3),
    ];
    let mut begun = Vec::new();
    let mut state = ListenerState::Receiving;
    for payload in &payloads {
        let (next, action) = state.step(received(payload, None));
        state = match action {
            ListenerAction::Begin(n) => {
                begun.push((n.aih, n.token_repeat));
                next.step(ListenerEvent::Done).0
            }
            _ => next,
        };
        assert_eq!(state, ListenerState::Receiving);
    }
    assert_eq!(
        begun,
        vec![("a".to_string(), 1), ("b".to_string(), -2), ("a".to_string(), 3)]
    );
}
