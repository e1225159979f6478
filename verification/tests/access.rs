use rexafs_gui::access::{
    toggle_access, admit_tool_call, tool_status, ToolAdmission, answer_access, command_gate, cwd_check, fetch_denial, tool_reply, AccessKind, AccessOutcome, PendingAccess,
};
use rexafs_gui::json::Json;
use rexafs_gui::json_text::to_text;
use rexafs_gui::transcript::{Event, Transcript};

fn running(turn: &str) -> Transcript {
    let mut t = Transcript::default();
    t.apply(Event::Send("fetch a structure".into(), true), 0);
    t.apply(Event::TurnStarted(turn.into()), 0);
    t
}

fn command(turn: &str) -> PendingAccess {
    PendingAccess {
        kind: AccessKind::Command { turn: turn.into() },
        approved: false,
    }
}

fn fetch() -> PendingAccess {
    PendingAccess {
        kind: AccessKind::Fetch,
        approved: false,
    }
}

fn denied(o: AccessOutcome) -> String {
    match o {
        AccessOutcome::Deny(reason) => reason,
        other => panic!("expected a denial, got {other:?}"),
    }
}

#[test]
fn allowed_command_of_the_live_turn_is_approved_once() {
    let t = running("turn");
    let o = answer_access(Some(&command("turn")), true, false, &t, true, false, false);
    assert!(matches!(o, AccessOutcome::AllowCommand));
    let approved = PendingAccess {
        approved: true,
        ..command("turn")
    };
    let o = answer_access(Some(&approved), true, false, &t, true, false, false);
    assert!(matches!(o, AccessOutcome::Ignore));
    let o = answer_access(None, true, false, &t, true, false, false);
    assert!(matches!(o, AccessOutcome::Ignore));
}

#[test]
fn denial_expiry_stop_and_revocation_each_deny() {
    let t = running("turn");
    let pending = command("turn");
    assert_eq!(
        denied(answer_access(Some(&pending), false, false, &t, true, false, false)),
        "Denied by user"
    );
    assert_eq!(
        denied(answer_access(Some(&pending), true, true, &t, true, false, false)),
        "Approval expired or turn stopped"
    );
    let mut stopped = running("turn");
    stopped.apply(Event::StopRequested, 0);
    assert_eq!(
        denied(answer_access(Some(&pending), true, false, &stopped, true, false, false)),
        "Approval expired or turn stopped"
    );
    assert_eq!(
        denied(answer_access(Some(&pending), true, false, &t, false, false, false)),
        "Extended access revoked"
    );
    assert_eq!(
        denied(answer_access(Some(&command("old")), true, false, &t, true, false, false)),
        "Extended access revoked"
    );
    assert_eq!(
        denied(answer_access(Some(&fetch()), true, false, &t, false, true, false)),
        "Edit analysis permission revoked"
    );
    assert!(matches!(
        answer_access(Some(&fetch()), true, false, &t, false, true, true),
        AccessOutcome::StartFetch
    ));
    let idle = Transcript::default();
    assert_eq!(
        denied(answer_access(Some(&fetch()), true, false, &idle, false, true, true)),
        "Approval expired or turn stopped"
    );
}

#[test]
fn tool_replies_carry_content_items_or_compact_text() {
    let items = Json::Array(vec![Json::Str("x".into())]);
    let value = Json::Object(vec![
        ("contentItems".into(), items.clone()),
        ("other".into(), Json::Bool(true)),
    ]);
    let reply = tool_reply(Json::Number("3".into()), Ok(value));
    assert_eq!(
        to_text(&reply),
        "{\"id\":3,\"result\":{\"contentItems\":[\"x\"],\"success\":true}}"
    );
    let value = Json::Object(vec![("applied".into(), Json::Bool(true))]);
    let reply = tool_reply(Json::Str("a".into()), Ok(value));
    assert_eq!(
        to_text(&reply),
        "{\"id\":\"a\",\"result\":{\"contentItems\":[{\"text\":\"{\\\"applied\\\":true}\",\"type\":\"inputText\"}],\"success\":true}}"
    );
    let reply = tool_reply(Json::Null, Err("No spectrum".into()));
    assert_eq!(
        to_text(&reply),
        "{\"id\":null,\"result\":{\"contentItems\":[{\"text\":\"No spectrum\",\"type\":\"inputText\"}],\"success\":false}}"
    );
    assert_eq!(
        to_text(&fetch_denial(Json::Number("9".into()), "Denied by user")),
        "{\"id\":9,\"result\":{\"contentItems\":[{\"text\":\"Denied by user\",\"type\":\"inputText\"}],\"success\":false}}"
    );
}

#[test]
fn commands_need_extended_access_on_the_live_turn_and_thread() {
    let t = running("turn");
    assert!(command_gate(true, &t, "turn", "thread", Some("thread")).is_ok());
    let refusal = "Command denied: Extended access is off or the turn has stopped";
    assert_eq!(command_gate(false, &t, "turn", "thread", Some("thread")).unwrap_err(), refusal);
    assert_eq!(command_gate(true, &t, "old-turn", "thread", Some("thread")).unwrap_err(), refusal);
    assert_eq!(command_gate(true, &t, "turn", "thread", Some("other")).unwrap_err(), refusal);
    assert_eq!(command_gate(true, &t, "turn", "thread", None).unwrap_err(), refusal);
    let mut stopped = running("turn");
    stopped.apply(Event::StopRequested, 0);
    assert_eq!(command_gate(true, &stopped, "turn", "thread", Some("thread")).unwrap_err(), refusal);
}

#[test]
fn command_cwd_stays_inside_the_workspace() {
    assert!(cwd_check("/work/space", "/work/space", true).is_ok());
    assert!(cwd_check("/work/space", "/work/space/sub", true).is_ok());
    let refusal = "Command cwd must be inside the assistant workspace";
    assert_eq!(cwd_check("/work/space", "/work/spaces", true).unwrap_err(), refusal);
    assert_eq!(cwd_check("/work/space", "/tmp", true).unwrap_err(), refusal);
    assert_eq!(cwd_check("/work/space", "/work/space/file", false).unwrap_err(), refusal);
}

fn call(tool: &str, turn: Option<&str>, call: Option<&str>) -> Json {
    let mut members = vec![("tool".to_string(), Json::Str(tool.into()))];
    if let Some(t) = turn {
        members.push(("turnId".to_string(), Json::Str(t.into())));
    }
    if let Some(c) = call {
        members.push(("callId".to_string(), Json::Str(c.into())));
    }
    Json::Object(members)
}

#[test]
fn tool_calls_need_ids_a_live_turn_and_edit_mode_for_changes() {
    let t = running("turn");
    match admit_tool_call(&call("xray_get_state", Some("turn"), Some("c1")), &t, false, false) {
        ToolAdmission::Start { turn, call, tool, label, edit_refused } => {
            assert_eq!((turn.as_str(), call.as_str(), tool.as_str()), ("turn", "c1", "xray_get_state"));
            assert_eq!(label, "Reading analysis…");
            assert!(!edit_refused);
        }
        other => panic!("unexpected {other:?}"),
    }
    match admit_tool_call(&call("xray_run_fit", Some("turn"), Some("c2")), &t, true, false) {
        ToolAdmission::Start { label, edit_refused, .. } => {
            assert_eq!(label, "Fitting…");
            assert!(edit_refused);
        }
        other => panic!("unexpected {other:?}"),
    }
    match admit_tool_call(&call("xray_run_fit", Some("turn"), Some("c2")), &t, true, true) {
        ToolAdmission::Start { edit_refused, .. } => assert!(!edit_refused),
        other => panic!("unexpected {other:?}"),
    }
    match admit_tool_call(&call("xray_run_fit", Some("old"), Some("c3")), &t, true, true) {
        ToolAdmission::Refuse(e) => assert_eq!(e, "The assistant turn has stopped"),
        other => panic!("unexpected {other:?}"),
    }
    match admit_tool_call(&call("xray_run_fit", Some("turn"), None), &t, true, true) {
        ToolAdmission::Refuse(e) => assert_eq!(e, "Missing tool turn or call id"),
        other => panic!("unexpected {other:?}"),
    }
    assert_eq!(tool_status("xray_set_layout"), "Updating layout…");
    assert_eq!(tool_status("xray_select_paths"), "Updating model…");
}

#[test]
fn access_toggles_flip_one_setting_and_announce_the_reconnect() {
    let t = toggle_access(true, false, false, false, true, false).unwrap();
    assert!(t.web_search && t.extended_access);
    assert_eq!(t.note, "Extended access on · reconnecting on next turn");
    let t = toggle_access(false, false, false, false, true, true).unwrap();
    assert!(!t.web_search && t.extended_access);
    assert_eq!(t.note, "Web search off · reconnecting on next turn");
    assert!(toggle_access(true, true, false, false, true, false).is_none());
    assert!(toggle_access(true, false, true, false, true, false).is_none());
    assert!(toggle_access(false, false, false, true, true, false).is_none());
}
