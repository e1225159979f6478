use rexafs_gui::protocol::{account_read, merge_model_page, thread_started, turn_start_interrupt, turn_started, StartOutcome};
use rexafs_gui::json::Json;
use rexafs_gui::json_text::to_text;
use rexafs_gui::protocol::{
    connection_error, failed_request, item_event, other_turn, request_message, resumed_thread,
    turn_completed_event, unsupported_request_reply, FailedRequest,
};
use rexafs_gui::transcript::{Event, ItemKind, Transcript, Update};

fn obj(members: Vec<(&str, Json)>) -> Json {
    Json::Object(members.into_iter().map(|(k, v)| (k.to_string(), v)).collect())
}

fn s(t: &str) -> Json {
    Json::Str(t.to_string())
}

fn item(event: Option<Event>) -> (String, String, ItemKind, Update) {
    match event {
        Some(Event::Item {
            turn,
            id,
            kind,
            update,
        }) => (turn, id, kind, update),
        other => panic!("expected an item event, got {other:?}"),
    }
}

#[test]
fn deltas_start_and_completion_become_item_events() {
    let p = obj(vec![("turnId", s("t1")), ("itemId", s("i1")), ("delta", s("Hel"))]);
    let (turn, id, kind, update) = item(item_event("item/agentMessage/delta", &p));
    assert_eq!((turn.as_str(), id.as_str(), kind), ("t1", "i1", ItemKind::Assistant));
    assert!(matches!(update, Update::Delta(d) if d == "Hel"));

    let p = obj(vec![("turnId", s("t1")), ("itemId", s("r1"))]);
    let (_, _, kind, update) = item(item_event("item/reasoning/summaryTextDelta", &p));
    assert_eq!(kind, ItemKind::Thinking);
    assert!(matches!(update, Update::Delta(d) if d.is_empty()));

    let p = obj(vec![
        ("turnId", s("t1")),
        ("item", obj(vec![("id", s("i2")), ("type", s("agentMessage"))])),
    ]);
    let (_, id, kind, update) = item(item_event("item/started", &p));
    assert_eq!((id.as_str(), kind), ("i2", ItemKind::Assistant));
    assert!(matches!(update, Update::Started));

    let p = obj(vec![
        ("turnId", s("t1")),
        (
            "item",
            obj(vec![("id", s("i2")), ("text", s("Done.")), ("type", s("agentMessage"))]),
        ),
    ]);
    let (_, _, _, update) = item(item_event("item/completed", &p));
    assert!(matches!(update, Update::Completed(Some(t)) if t == "Done."));
}

#[test]
fn reasoning_summaries_join_parts_and_fall_back_to_text() {
    let completed = |summary: Json| {
        obj(vec![
            ("turnId", s("t1")),
            (
                "item",
                obj(vec![
                    ("id", s("r1")),
                    ("summary", summary),
                    ("text", s("raw")),
                    ("type", s("reasoning")),
                ]),
            ),
        ])
    };
    let parts = Json::Array(vec![s("First"), obj(vec![("text", s("Second"))]), Json::Null]);
    let (_, _, kind, update) = item(item_event("item/completed", &completed(parts)));
    assert_eq!(kind, ItemKind::Thinking);
    assert!(matches!(update, Update::Completed(Some(t)) if t == "First\nSecond"));
    let blank = Json::Array(vec![s(" "), s("\t")]);
    let (_, _, _, update) = item(item_event("item/completed", &completed(blank)));
    assert!(matches!(update, Update::Completed(Some(t)) if t == "raw"));
    let (_, _, _, update) = item(item_event("item/completed", &completed(Json::Null)));
    assert!(matches!(update, Update::Completed(Some(t)) if t == "raw"));
}

#[test]
fn other_items_and_incomplete_notifications_make_no_event() {
    let p = obj(vec![
        ("turnId", s("t1")),
        ("item", obj(vec![("id", s("c1")), ("type", s("commandExecution"))])),
    ]);
    assert!(item_event("item/started", &p).is_none());
    assert!(item_event("item/agentMessage/delta", &obj(vec![("itemId", s("i"))])).is_none());
    assert!(item_event("item/agentMessage/delta", &obj(vec![("turnId", s("t"))])).is_none());
    assert!(item_event("turn/completed", &obj(vec![("turnId", s("t"))])).is_none());
}

#[test]
fn turn_completion_carries_its_error() {
    let p = obj(vec![(
        "turn",
        obj(vec![("error", obj(vec![("message", s("boom"))])), ("id", s("t1"))]),
    )]);
    match turn_completed_event(&p) {
        Some(Event::TurnCompleted { turn, error }) => {
            assert_eq!(turn, "t1");
            assert_eq!(error.as_deref(), Some("boom"));
        }
        other => panic!("unexpected {other:?}"),
    }
    assert!(turn_completed_event(&obj(vec![])).is_none());
}

#[test]
fn notifications_of_other_turns_are_dropped() {
    let mut t = Transcript::default();
    t.apply(Event::Send("hi".into(), false), 0);
    t.apply(Event::TurnStarted("t1".into()), 0);
    let p = |turn: &str| obj(vec![("turnId", s(turn))]);
    assert!(!other_turn("item/agentMessage/delta", &p("t1"), &t));
    assert!(other_turn("item/agentMessage/delta", &p("t0"), &t));
    assert!(!other_turn("item/tool/call", &p("t0"), &t));
    assert!(!other_turn("error", &obj(vec![]), &t));
    assert!(other_turn("turn/started", &p("t1"), &Transcript::default()));
}

#[test]
fn errors_and_failed_requests() {
    let (message, retry) = connection_error(&obj(vec![
        ("error", obj(vec![("message", s("overloaded"))])),
        ("willRetry", Json::Bool(true)),
    ]));
    assert_eq!((message.as_str(), retry), ("overloaded", true));
    let (message, retry) = connection_error(&obj(vec![]));
    assert_eq!((message.as_str(), retry), ("Assistant connection error", false));

    let error = obj(vec![("message", s("denied"))]);
    assert!(matches!(failed_request("thread/resume", &error), FailedRequest::ResumeFallback));
    assert!(matches!(failed_request("initialize", &error), FailedRequest::Disconnect(m) if m == "denied"));
    assert!(matches!(failed_request("account/read", &obj(vec![])), FailedRequest::Disconnect(m) if m == "Codex request failed"));
    assert!(matches!(
        failed_request("model/list", &error),
        FailedRequest::ModelListWarning(m) if m == "Model list unavailable: denied · using Codex default"
    ));
    assert!(matches!(failed_request("turn/interrupt", &error), FailedRequest::Ignore));
    assert!(matches!(failed_request("turn/start", &error), FailedRequest::Fail(m) if m == "denied"));
}

#[test]
fn unsupported_requests_get_a_method_not_found_reply() {
    assert_eq!(
        to_text(&unsupported_request_reply(Json::Number("4".into()))),
        "{\"error\":{\"code\":-32601,\"message\":\"This client supports rexafs analysis tools only. Ask the user in your reply instead.\"},\"id\":4}"
    );
}

#[test]
fn resume_results_name_the_thread_unless_it_is_active() {
    let result = |status: &str| {
        obj(vec![(
            "thread",
            obj(vec![("id", s("th")), ("status", obj(vec![("type", s(status))]))]),
        )])
    };
    assert_eq!(resumed_thread(&result("idle")).as_deref(), Some("th"));
    assert_eq!(resumed_thread(&result("active")), None);
    assert_eq!(resumed_thread(&obj(vec![])), None);
}

#[test]
fn requests_carry_fresh_ids() {
    let (msg, next) = request_message(41, "model/list", obj(vec![("includeHidden", Json::Bool(false))]));
    assert_eq!(next, 42);
    assert_eq!(
        to_text(&msg),
        "{\"id\":41,\"method\":\"model/list\",\"params\":{\"includeHidden\":false}}"
    );
}

fn strings(v: &[&str]) -> Vec<String> {
    v.iter().map(|s| s.to_string()).collect()
}

#[test]
fn model_pages_merge_without_duplicates_and_cursors_are_asked_once() {
    let mut models = strings(&["gpt-a"]);
    let mut cursors = Vec::new();
    let next = merge_model_page(
        &mut models,
        &mut cursors,
        strings(&["gpt-b", "gpt-a", "gpt-c", "gpt-b"]),
        Some("page2".to_string()),
    );
    assert_eq!(models, strings(&["gpt-a", "gpt-b", "gpt-c"]));
    assert_eq!(next, Some("page2".to_string()));
    assert_eq!(cursors, strings(&["page2"]));
    let again = merge_model_page(&mut models, &mut cursors, strings(&["gpt-d"]), Some("page2".to_string()));
    assert_eq!(again, None);
    assert_eq!(cursors, strings(&["page2"]));
    assert_eq!(models, strings(&["gpt-a", "gpt-b", "gpt-c", "gpt-d"]));
    assert_eq!(merge_model_page(&mut models, &mut cursors, vec![], None), None);
}

#[test]
fn account_read_sets_status_and_asks_for_models_once() {
    let r = account_read(true, false, false);
    assert!(r.account);
    assert_eq!(r.status, Some("Ready"));
    assert!(r.request_models);
    let r = account_read(true, true, true);
    assert_eq!(r.status, None);
    assert!(!r.request_models);
    let r = account_read(false, false, false);
    assert!(!r.account);
    assert_eq!(r.status, Some("Sign in to Codex"));
    assert!(!r.request_models);
}

#[test]
fn start_results_give_ids_or_fail_the_running_turn() {
    let thread = obj(vec![("thread", obj(vec![("id", s("th-1"))]))]);
    assert!(matches!(thread_started(&thread, true), StartOutcome::Started(id) if id == "th-1"));
    let turn = obj(vec![("turn", obj(vec![("id", s("tu-9"))]))]);
    assert!(matches!(turn_started(&turn, false), StartOutcome::Started(id) if id == "tu-9"));
    let empty = obj(vec![]);
    assert!(matches!(thread_started(&empty, true), StartOutcome::Fail(m) if m == "Codex returned no thread id"));
    assert!(matches!(turn_started(&empty, true), StartOutcome::Fail(m) if m == "Codex returned no turn id"));
    assert!(matches!(turn_started(&empty, false), StartOutcome::Nothing));
    let numeric = obj(vec![("turn", obj(vec![("id", Json::Number("3".to_string()))]))]);
    assert!(matches!(turn_started(&numeric, false), StartOutcome::Nothing));
}

#[test]
fn a_turn_stopped_before_its_start_is_interrupted() {
    let p = turn_start_interrupt(false, Some("th"), Some("tu")).unwrap();
    assert_eq!(to_text(&p), "{\"threadId\":\"th\",\"turnId\":\"tu\"}");
    assert!(turn_start_interrupt(true, Some("th"), Some("tu")).is_none());
    assert!(turn_start_interrupt(false, None, Some("tu")).is_none());
    assert!(turn_start_interrupt(false, Some("th"), None).is_none());
}
