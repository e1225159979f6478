use rexafs_gui::apps::{approval, decline_response, eq_ignore_case};
use rexafs_gui::json::Json;
use rexafs_gui::transcript::{Event, Transcript};

fn s(text: &str) -> Json {
    Json::Str(text.into())
}
fn obj(members: Vec<(&str, Json)>) -> Json {
    Json::Object(members.into_iter().map(|(k, v)| (k.to_string(), v)).collect())
}
fn arr(items: Vec<Json>) -> Json {
    Json::Array(items)
}
fn at<'a>(j: &'a Json, key: &str) -> &'a Json {
    match j {
        Json::Object(members) => members
            .iter()
            .find(|(k, _)| k == key)
            .map(|(_, v)| v)
            .unwrap_or(&Json::Null),
        _ => &Json::Null,
    }
}
fn at_mut<'a>(j: &'a mut Json, key: &str) -> &'a mut Json {
    match j {
        Json::Object(members) => {
            if !members.iter().any(|(k, _)| k == key) {
                members.push((key.to_string(), Json::Null));
            }
            &mut members.iter_mut().find(|(k, _)| k == key).unwrap().1
        }
        _ => panic!("not an object"),
    }
}
fn idx_mut(j: &mut Json, i: usize) -> &mut Json {
    match j {
        Json::Array(items) => &mut items[i],
        _ => panic!("not an array"),
    }
}
fn option(label: &str, description: &str) -> Json {
    obj(vec![("label", s(label)), ("description", s(description))])
}

fn confirmation() -> Json {
    obj(vec![
        ("id", s("approval")),
        ("method", s("item/tool/requestUserInput")),
        (
            "params",
            obj(vec![
                ("threadId", s("thread")),
                ("turnId", s("turn")),
                ("itemId", s("tool")),
                (
                    "questions",
                    arr(vec![obj(vec![
                        ("id", s("app-action")),
                        ("header", s("Google Drive")),
                        ("question", s("Allow this Drive action?")),
                        ("isOther", Json::Bool(false)),
                        ("isSecret", Json::Bool(false)),
                        (
                            "options",
                            arr(vec![
                                option("Decline", "Do not run"),
                                option("Accept", "Run this action once"),
                                option("Cancel", "Cancel"),
                            ]),
                        ),
                    ])]),
                ),
            ]),
        ),
    ])
}

fn answers(id: &str, label: &str) -> Json {
    obj(vec![(
        "answers",
        obj(vec![(id, obj(vec![("answers", arr(vec![s(label)]))]))]),
    )])
}

#[test]
fn answers_explicit_options_and_preserves_question_id() {
    let request = confirmation();
    let parsed = approval(&request).unwrap();
    let id = at(&request, "id").clone();
    assert_eq!(
        *at(&parsed.response(id.clone(), true), "result"),
        answers("app-action", "Accept")
    );
    assert_eq!(
        *at(&parsed.response(id, false), "result"),
        answers("app-action", "Decline")
    );
    for field in ["turnId", "threadId"] {
        let mut stale = request.clone();
        *at_mut(at_mut(&mut stale, "params"), field) = Json::Null;
        assert!(approval(&stale).is_err());
    }
}

#[test]
fn never_guesses_answers_or_grants_persistent_access() {
    let mut request = confirmation();
    {
        let q = idx_mut(at_mut(at_mut(&mut request, "params"), "questions"), 0);
        let o = idx_mut(at_mut(q, "options"), 1);
        *at_mut(o, "label") = s("Always allow");
    }
    assert!(approval(&request).is_err());
    request = confirmation();
    {
        let q = idx_mut(at_mut(at_mut(&mut request, "params"), "questions"), 0);
        *at_mut(q, "isSecret") = Json::Bool(true);
    }
    assert!(approval(&request).is_err());
    assert_eq!(
        *at(&decline_response(&request), "result"),
        obj(vec![("answers", obj(vec![]))])
    );
}

#[test]
fn revocation_stop_and_stale_identity_prevent_approval() {
    let now = 1_000;
    let mut transcript = Transcript::default();
    transcript.apply(Event::Send("Read a Drive file".into(), false), now);
    transcript.apply(Event::TurnStarted("turn".into()), now);
    let parsed = approval(&confirmation()).unwrap();
    assert!(parsed.is_current(true, &transcript, Some("thread")));
    assert!(!parsed.is_current(false, &transcript, Some("thread")));
    assert!(!parsed.is_current(true, &transcript, Some("previous-thread")));
    let mut stale = parsed.clone();
    stale.turn = "previous-turn".into();
    assert!(!stale.is_current(true, &transcript, Some("thread")));
    transcript.apply(Event::StopRequested, now);
    assert!(!parsed.is_current(true, &transcript, Some("thread")));
    transcript.apply(Event::Disconnected, now);
    assert!(!parsed.is_current(true, &transcript, Some("thread")));
}

fn elicitation() -> Json {
    obj(vec![
        ("id", Json::Number("7".into())),
        ("method", s("mcpServer/elicitation/request")),
        (
            "params",
            obj(vec![
                ("threadId", s("thread")),
                ("turnId", s("turn")),
                ("serverName", s("codex_apps")),
                ("mode", s("form")),
                ("message", s("Allow this action?")),
                (
                    "requestedSchema",
                    obj(vec![("type", s("object")), ("properties", obj(vec![]))]),
                ),
            ]),
        ),
    ])
}

#[test]
fn declines_forms_requiring_data_or_login() {
    let mut request = elicitation();
    assert_eq!(
        *at(
            at(
                &approval(&request)
                    .unwrap()
                    .response(Json::Number("7".into()), true),
                "result"
            ),
            "action"
        ),
        s("accept")
    );
    *at_mut(at_mut(at_mut(&mut request, "params"), "requestedSchema"), "properties") =
        obj(vec![("password", obj(vec![("type", s("string"))]))]);
    assert!(approval(&request).is_err());
    *at_mut(at_mut(&mut request, "params"), "mode") = s("url");
    assert!(approval(&request).is_err());
    assert_eq!(
        *at(at(&decline_response(&request), "result"), "action"),
        s("decline")
    );
}

#[test]
fn refusals_name_their_reason() {
    let mut request = confirmation();
    *at_mut(at_mut(&mut request, "params"), "threadId") = Json::Null;
    assert_eq!(
        approval(&request).unwrap_err(),
        "Missing app confirmation threadId"
    );
    let mut request = confirmation();
    *at_mut(&mut request, "method") = s("something/else");
    assert_eq!(approval(&request).unwrap_err(), "Unsupported app confirmation");
    let mut request = confirmation();
    {
        let q = at_mut(at_mut(&mut request, "params"), "questions");
        if let Json::Array(items) = q {
            let first = items[0].clone();
            items.push(first);
        }
    }
    assert_eq!(
        approval(&request).unwrap_err(),
        "Answer this app's questions in Codex, then try again."
    );
    let mut request = confirmation();
    {
        let q = idx_mut(at_mut(at_mut(&mut request, "params"), "questions"), 0);
        let o = idx_mut(at_mut(q, "options"), 0);
        *at_mut(o, "label") = s("Maybe");
        let o = idx_mut(at_mut(q, "options"), 2);
        *at_mut(o, "label") = s("Later");
    }
    assert_eq!(approval(&request).unwrap_err(), "Missing decline option");
    let mut request = elicitation();
    *at_mut(at_mut(&mut request, "params"), "serverName") = s("");
    assert_eq!(
        approval(&request).unwrap_err(),
        "Missing app confirmation serverName"
    );
}

#[test]
fn approval_keeps_question_details_and_ignores_label_case() {
    let mut request = confirmation();
    {
        let q = idx_mut(at_mut(at_mut(&mut request, "params"), "questions"), 0);
        let o = idx_mut(at_mut(q, "options"), 1);
        *at_mut(o, "label") = s("allow ONCE");
    }
    let parsed = approval(&request).unwrap();
    assert_eq!(parsed.thread, "thread");
    assert_eq!(parsed.turn, "turn");
    assert_eq!(parsed.question, "Allow this Drive action?");
    assert_eq!(parsed.details, vec!["Run this action once".to_string()]);
    assert_eq!(parsed.accept, answers("app-action", "allow ONCE"));
    let form = approval(&elicitation()).unwrap();
    assert_eq!(form.details, vec!["Connected service: codex_apps".to_string()]);
    assert_eq!(form.question, "Allow this action?");
    assert!(eq_ignore_case("Approve Once", "approve once"));
    assert!(!eq_ignore_case("Approve", "approve once"));
    assert!(!eq_ignore_case("É", "é"));
}

#[test]
fn decline_response_echoes_request_id() {
    let request = confirmation();
    assert_eq!(
        decline_response(&request),
        obj(vec![
            ("id", s("approval")),
            ("result", obj(vec![("answers", obj(vec![]))]))
        ])
    );
    let form = elicitation();
    assert_eq!(
        decline_response(&form),
        obj(vec![
            ("id", Json::Number("7".into())),
            (
                "result",
                obj(vec![
                    ("action", s("decline")),
                    ("content", Json::Null),
                    ("_meta", Json::Null)
                ])
            )
        ])
    );
}
