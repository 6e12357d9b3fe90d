use arcanum::db::{SkillRef, StoreWrite};
use arcanum::mcp::load_skill::{
    load_call, threshold, LoadAction, LoadCall, LoadEvent, LoadSkillRequest, LoadStage,
};
use arcanum::mcp::request::{ToolError, AIH_HEADER, ARGUMENTS_HEADER, RESPONSE_ID_HEADER};
use arcanum::monitor::{decide, Tick};
use rmcp::model::Extensions;

fn extensions(headers: &[(&str, &str)]) -> Extensions {
    let mut builder = http::Request::builder();
    for (name, value) in headers {
        builder = builder.header(*name, *value);
    }
    let (parts, _) = builder.body(()).expect("a request").into_parts();
    let mut extensions = Extensions::new();
    extensions.insert(parts);
    extensions
}

fn request() -> LoadSkillRequest {
    LoadSkillRequest { laboratory_id: "lab".to_string(), path: "/skills/greeting".to_string() }
}

fn call() -> LoadCall {
    LoadCall {
        aih: "top/agent".to_string(),
        skill: SkillRef {
            laboratory_id: "lab".to_string(),
            skill_path: "/skills/greeting".to_string(),
            response_id: "r-1".to_string(),
        },
        token_repeat: 5000,
    }
}

fn failure(action: LoadAction) -> (bool, String) {
    match action {
        LoadAction::Fail(ToolError::InvalidParams(message)) => (true, message),
        LoadAction::Fail(ToolError::Internal(message)) => (false, message),
        _ => panic!("expected a failure"),
    }
}

#[test]
fn a_call_is_read_off_the_request() {
    let ext = extensions(&[
        (RESPONSE_ID_HEADER, " r-1 "),
        (AIH_HEADER, "top/agent"),
        (ARGUMENTS_HEADER, r#"{"token-repeat":"5000"}"#),
    ]);
    let call = load_call(&ext, request()).ok().expect("all headers are there");
    assert_eq!(call.aih, "top/agent");
    assert_eq!(call.skill.laboratory_id, "lab");
    assert_eq!(call.skill.skill_path, "/skills/greeting");
    assert_eq!(call.skill.response_id, "r-1");
    assert_eq!(call.token_repeat, 5000);
}

#[test]
fn the_first_unreadable_header_is_the_error() {
    let message = |headers: &[(&str, &str)]| match load_call(&extensions(headers), request()) {
        Err(ToolError::InvalidParams(message)) => message,
        _ => panic!("expected an error"),
    };
    assert_eq!(message(&[]), format!("missing required header: {RESPONSE_ID_HEADER}"));
    assert_eq!(
        message(&[(RESPONSE_ID_HEADER, "r")]),
        format!("missing required header: {AIH_HEADER}")
    );
    assert_eq!(
        message(&[(RESPONSE_ID_HEADER, "r"), (AIH_HEADER, "a")]),
        format!("missing required header: {ARGUMENTS_HEADER}")
    );
    assert_eq!(
        message(&[(RESPONSE_ID_HEADER, "r"), (AIH_HEADER, "a"), (ARGUMENTS_HEADER, "{}")]),
        "token-repeat must be a u64"
    );
}

#[test]
fn a_threshold_is_the_token_repeat_or_the_largest() {
    assert_eq!(threshold(0), 0);
    assert_eq!(threshold(5000), 5000);
    assert_eq!(threshold(i64::MAX as u64), i64::MAX);
    assert_eq!(threshold(1 << 63), i64::MAX);
    assert_eq!(threshold(u64::MAX), i64::MAX);
}

#[test]
fn a_token_repeat_that_is_never_grown_past_never_injects() {
    assert_eq!(decide(Some(0), i64::MAX, threshold(u64::MAX), true), Tick::Hold);
    assert_eq!(decide(Some(0), 10, threshold(u64::MAX), true), Tick::Hold);
    assert_eq!(decide(Some(0), 11, threshold(10), true), Tick::Inject);
}

#[test]
fn a_load_records_its_skill_then_monitors_and_answers() {
    let call = call();
    let (stage, action) = call.start();
    match action {
        LoadAction::ReadSkill(skill) => {
            assert_eq!(skill.laboratory_id, "lab");
            assert_eq!(skill.skill_path, "/skills/greeting");
            assert_eq!(skill.response_id, "r-1");
        }
        _ => panic!("the skill is read first"),
    }
    let (stage, action) = call.step(stage, LoadEvent::Content(Some("say hello".to_string())));
    assert!(matches!(action, LoadAction::ConnectStore));
    let (stage, action) = call.step(stage, LoadEvent::Store(Ok(())));
    assert!(matches!(action, LoadAction::ReadUsage));
    let (stage, action) = call.step(stage, LoadEvent::Usage(Some(700)));
    match action {
        LoadAction::Record(StoreWrite::SetSkill {
            aih,
            laboratory_id,
            skill_path,
            response_id,
            last_total_tokens,
        }) => {
            assert_eq!(aih, "top/agent");
            assert_eq!(laboratory_id, "lab");
            assert_eq!(skill_path, "/skills/greeting");
            assert_eq!(response_id, "r-1");
            assert_eq!(last_total_tokens, 700);
        }
        _ => panic!("the skill is recorded with its baseline"),
    }
    let (stage, action) = call.step(stage, LoadEvent::Recorded(Ok(())));
    assert!(matches!(stage, LoadStage::Answered));
    match action {
        LoadAction::Succeed { aih, token_repeat, content } => {
            assert_eq!(aih, "top/agent");
            assert_eq!(token_repeat, 5000);
            assert_eq!(content, "say hello");
        }
        _ => panic!("the call succeeds"),
    }
}

#[test]
fn a_missing_skill_is_named_and_nothing_is_written() {
    let call = call();
    let (stage, action) = call.step(LoadStage::Reading, LoadEvent::Content(None));
    assert!(matches!(stage, LoadStage::Answered));
    assert_eq!(
        failure(action),
        (true, "no SKILL.md at /skills/greeting in laboratory lab".to_string())
    );
}

#[test]
fn a_store_that_fails_is_an_internal_error() {
    let call = call();
    let content = || "x".to_string();
    let down = || Err("down".to_string());
    let (stage, action) = call.step(LoadStage::Connecting(content()), LoadEvent::Store(down()));
    assert!(matches!(stage, LoadStage::Answered));
    assert_eq!(failure(action), (false, "db: down".to_string()));
    let (stage, action) = call.step(LoadStage::Recording(content()), LoadEvent::Recorded(down()));
    assert!(matches!(stage, LoadStage::Answered));
    assert_eq!(failure(action), (false, "db: down".to_string()));
}

#[test]
fn an_unknown_usage_sets_the_baseline_to_none_used() {
    let (_, action) = call().step(LoadStage::Measuring("x".to_string()), LoadEvent::Usage(None));
    assert!(matches!(
        action,
        LoadAction::Record(StoreWrite::SetSkill { last_total_tokens: 0, .. })
    ));
}
