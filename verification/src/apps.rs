//! One-time connected-app confirmations for the Codex app-server protocol.
//!
//! Credential forms and arbitrary questionnaires are declined; the user can
//! complete app setup in Codex. No answer or timeout ever implies consent.
use vstd::prelude::*;
use crate::json::{
    Json, JsonView, array1, as_text, at, copy, copy_or_null, elements, field, get, items, member,
    nonempty_text, nonempty_text_of, object, object0, object1, object3, text_of, text_value,
    view_or_null,
};
use crate::text::str_eq;
use crate::transcript::{EventView, Transcript, TranscriptView};

verus! {

/// A parsed confirmation request, with the exact answers for Allow and Deny.
#[derive(Clone, Debug)]
pub struct AppApproval {
    pub thread: String,
    pub turn: String,
    pub question: String,
    pub details: Vec<String>,
    pub accept: Json,
    pub decline: Json,
}

/// Plain-value model of an [`AppApproval`].
pub struct ApprovalView {
    pub thread: Seq<char>,
    pub turn: Seq<char>,
    pub question: Seq<char>,
    pub details: Seq<Seq<char>>,
    pub accept: JsonView,
    pub decline: JsonView,
}

impl View for AppApproval {
    type V = ApprovalView;

    open spec fn view(&self) -> ApprovalView {
        ApprovalView {
            thread: self.thread@,
            turn: self.turn@,
            question: self.question@,
            details: crate::text::views(self.details@),
            accept: self.accept@,
            decline: self.decline@,
        }
    }
}

/// ASCII case-insensitive equality of two characters.
pub open spec fn same_letter(a: char, b: char) -> bool {
    a == b || ('A' <= a <= 'Z' && b as u32 == a as u32 + 32) || ('A' <= b <= 'Z' && a as u32
        == b as u32 + 32)
}

/// ASCII case-insensitive equality of two strings.
pub open spec fn same_ignoring_case(a: Seq<char>, b: Seq<char>) -> bool {
    a.len() == b.len() && forall|i: int| 0 <= i < a.len() ==> same_letter(#[trigger] a[i], b[i])
}

/// The option's label is one of `labels`, ignoring ASCII case.
pub open spec fn labelled(option: JsonView, labels: Seq<Seq<char>>) -> bool {
    match as_text(at(option, "label"@)) {
        Some(s) => exists|k: int| 0 <= k < labels.len() && same_ignoring_case(s, #[trigger] labels[k]),
        None => false,
    }
}

/// Labels of explicit one-time approvals; persistent grants never match.
pub open spec fn approve_labels() -> Seq<Seq<char>> {
    seq!["Accept"@, "Allow once"@, "Approve once"@]
}

pub open spec fn decline_labels() -> Seq<Seq<char>> {
    seq!["Decline"@, "Deny"@, "Cancel"@]
}

/// Index of the first option from `i` on labelled with one of `labels`.
pub open spec fn first_labelled(options: Seq<JsonView>, i: int, labels: Seq<Seq<char>>) -> Option<int>
    decreases options.len() - i,
{
    if i < 0 || i >= options.len() {
        None
    } else if labelled(options[i], labels) {
        Some(i)
    } else {
        first_labelled(options, i + 1, labels)
    }
}

/// `{"answers":{id:{"answers":[label]}}}` for the chosen option.
pub open spec fn answer(id: Seq<char>, option: JsonView) -> JsonView {
    object(
        seq![("answers"@, object(seq![(id, object(seq![("answers"@, JsonView::Array(seq![at(option, "label"@)]))]))]))],
    )
}

pub open spec fn form_reply(accept: bool) -> JsonView {
    if accept {
        object(
            seq![("action"@, JsonView::Str("accept"@)), ("content"@, object(seq![])), ("_meta"@, JsonView::Null)],
        )
    } else {
        object(
            seq![("action"@, JsonView::Str("decline"@)), ("content"@, JsonView::Null), ("_meta"@, JsonView::Null)],
        )
    }
}

/// A required non-empty string parameter.
pub open spec fn required(params: JsonView, key: Seq<char>) -> Result<Seq<char>, Seq<char>> {
    match nonempty_text(at(params, key)) {
        Some(s) => Ok(s),
        None => Err("Missing app confirmation "@ + key),
    }
}

pub open spec fn setup_in_codex() -> Seq<char> {
    "Complete this app's setup in Codex, then try again."@
}

/// An elicitation that only asks for confirmation: a form whose schema is an
/// object without properties and without required fields.
pub open spec fn plain_confirmation(params: JsonView) -> bool {
    let schema = at(params, "requestedSchema"@);
    let mode = as_text(at(params, "mode"@));
    &&& (mode == Some("form"@) || mode == Some("openai/form"@) || mode == Some("openaiForm"@))
    &&& as_text(at(schema, "type"@)) == Some("object"@)
    &&& (match at(schema, "properties"@) {
        JsonView::Object(m) => m.len() == 0,
        _ => false,
    })
    &&& (match member(schema, "required"@) {
        Some(v) => elements(v) matches Some(a) && a.len() == 0,
        None => true,
    })
}

/// The confirmation a request asks for, or why it is declined.
pub open spec fn approval_of(request: JsonView) -> Result<ApprovalView, Seq<char>> {
    let p = at(request, "params"@);
    match required(p, "threadId"@) {
        Err(e) => Err(e),
        Ok(thread) => match required(p, "turnId"@) {
            Err(e) => Err(e),
            Ok(turn) => {
                let method = as_text(at(request, "method"@));
                if method == Some("item/tool/requestUserInput"@) || method == Some(
                    "tool/requestUserInput"@,
                ) {
                    questionnaire(p, thread, turn)
                } else if method == Some("mcpServer/elicitation/request"@) {
                    if !plain_confirmation(p) {
                        Err("Complete this app's form or connection in Codex, then try again."@)
                    } else {
                        match required(p, "message"@) {
                            Err(e) => Err(e),
                            Ok(message) => match required(p, "serverName"@) {
                                Err(e) => Err(e),
                                Ok(server) => Ok(
                                    ApprovalView {
                                        thread,
                                        turn,
                                        question: message,
                                        details: seq!["Connected service: "@ + server],
                                        accept: form_reply(true),
                                        decline: form_reply(false),
                                    },
                                ),
                            },
                        }
                    }
                } else {
                    Err("Unsupported app confirmation"@)
                }
            },
        },
    }
}

/// A user-input request is answerable only as a single question with an
/// explicit one-time approval option and a decline option.
pub open spec fn questionnaire(p: JsonView, thread: Seq<char>, turn: Seq<char>) -> Result<ApprovalView, Seq<char>> {
    match elements(at(p, "questions"@)) {
        None => Err("Missing app confirmation question"@),
        Some(questions) => if questions.len() != 1 {
            Err("Answer this app's questions in Codex, then try again."@)
        } else {
            let q = questions[0];
            if at(q, "isSecret"@) == JsonView::Bool(true) || at(q, "isOther"@) == JsonView::Bool(true) {
                Err(setup_in_codex())
            } else {
                match nonempty_text(at(q, "id"@)) {
                    None => Err("Missing question id"@),
                    Some(id) => match nonempty_text(at(q, "question"@)) {
                        None => Err("Missing question text"@),
                        Some(question) => match elements(at(q, "options"@)) {
                            None => Err(setup_in_codex()),
                            Some(options) => match first_labelled(options, 0, approve_labels()) {
                                None => Err(
                                    "This app question is not a one-time confirmation. Answer it in Codex."@,
                                ),
                                Some(y) => match first_labelled(options, 0, decline_labels()) {
                                    None => Err("Missing decline option"@),
                                    Some(n) => Ok(
                                        ApprovalView {
                                            thread,
                                            turn,
                                            question,
                                            details: match nonempty_text(at(options[y], "description"@)) {
                                                Some(d) => seq![d],
                                                None => seq![],
                                            },
                                            accept: answer(id, options[y]),
                                            decline: answer(id, options[n]),
                                        },
                                    ),
                                },
                            },
                        },
                    },
                }
            }
        },
    }
}

/// The reply that declines `request` without an answer.
pub open spec fn decline_reply(request: JsonView) -> JsonView {
    object(
        seq![("id"@, at(request, "id"@)), ("result"@, if as_text(at(request, "method"@)) == Some(
            "mcpServer/elicitation/request"@,
        ) {
            form_reply(false)
        } else {
            object(seq![("answers"@, object(seq![]))])
        })],
    )
}


/// ASCII case-insensitive equality.
pub fn eq_ignore_case(a: &str, b: &str) -> (r: bool)
    ensures
        r == same_ignoring_case(a@, b@),
{
    let n = a.unicode_len();
    if n != b.unicode_len() {
        return false;
    }
    let mut i: usize = 0;
    while i < n
        invariant
            n == a@.len(),
            n == b@.len(),
            i <= n,
            forall|k: int| 0 <= k < i ==> same_letter(#[trigger] a@[k], b@[k]),
        decreases n - i,
    {
        let x = a.get_char(i);
        let y = b.get_char(i);
        let same = x == y || ('A' <= x && x <= 'Z' && (y as u32) == (x as u32) + 32) || ('A' <= y
            && y <= 'Z' && (x as u32) == (y as u32) + 32);
        if !same {
            return false;
        }
        i = i + 1;
    }
    true
}

/// The option's label is an approval (`approve`) or a decline label.
fn is_labelled(option: &Json, approve: bool) -> (r: bool)
    ensures
        r == labelled(option@, if approve { approve_labels() } else { decline_labels() }),
{
    let label = match field(Some(option), "label") {
        Some(v) => text_of(v),
        None => None,
    };
    match label {
        Some(s) => {
            let ghost labels = if approve {
                approve_labels()
            } else {
                decline_labels()
            };
            let (l0, l1, l2) = if approve {
                ("Accept", "Allow once", "Approve once")
            } else {
                ("Decline", "Deny", "Cancel")
            };
            assert(labels[0] == l0@ && labels[1] == l1@ && labels[2] == l2@);
            let hit = eq_ignore_case(s, l0) || eq_ignore_case(s, l1) || eq_ignore_case(s, l2);
            proof {
                if !hit {
                    assert forall|k: int| 0 <= k < labels.len() implies !same_ignoring_case(
                        s@,
                        #[trigger] labels[k],
                    ) by {
                        assert(k == 0 || k == 1 || k == 2);
                    }
                }
            }
            hit
        },
        None => false,
    }
}

/// Index of the first approval (`approve`) or decline option.
fn first_option(options: &Vec<Json>, approve: bool, Ghost(views): Ghost<Seq<JsonView>>) -> (r: Option<usize>)
    requires
        views.len() == options@.len(),
        forall|i: int| 0 <= i < options@.len() ==> #[trigger] views[i] == options@[i]@,
    ensures
        match r {
            Some(k) => first_labelled(views, 0, if approve { approve_labels() } else { decline_labels() })
                == Some(k as int),
            None => first_labelled(views, 0, if approve { approve_labels() } else { decline_labels() }) is None,
        },
{
    let ghost labels = if approve {
        approve_labels()
    } else {
        decline_labels()
    };
    let n = options.len();
    let mut i: usize = 0;
    while i < n
        invariant
            n == views.len(),
            n == options@.len(),
            forall|k: int| 0 <= k < options@.len() ==> #[trigger] views[k] == options@[k]@,
            labels == (if approve { approve_labels() } else { decline_labels() }),
            i <= n,
            first_labelled(views, 0, labels) == first_labelled(views, i as int, labels),
        decreases n - i,
    {
        assert(views[i as int] == options@[i as int]@);
        if is_labelled(&options[i], approve) {
            return Some(i);
        }
        i = i + 1;
    }
    None
}

/// A required non-empty string parameter.
fn required_text(params: Option<&Json>, key: &str) -> (r: Result<String, String>)
    ensures
        match required(view_or_null(params), key@) {
            Ok(s) => r matches Ok(x) && x@ == s,
            Err(e) => r matches Err(x) && x@ == e,
        },
{
    match nonempty_text_of(field(params, key)) {
        Some(s) => Ok(s),
        None => Err(String::from_str("Missing app confirmation ").concat(key)),
    }
}

/// `{"answers":{id:{"answers":[label]}}}` for `option`.
fn answer_for(id: &str, option: &Json) -> (r: Json)
    ensures
        r@ == answer(id@, option@),
{
    let label = copy_or_null(field(Some(option), "label"));
    object1("answers", object1(id, object1("answers", array1(label))))
}

/// The reply to an elicitation form: accept with empty content, or decline.
fn form_reply_value(accept: bool) -> (r: Json)
    ensures
        r@ == form_reply(accept),
{
    if accept {
        object3("action", text_value("accept"), "content", object0(), "_meta", Json::Null)
    } else {
        object3("action", text_value("decline"), "content", Json::Null, "_meta", Json::Null)
    }
}

fn questionnaire_of(p: Option<&Json>, thread: String, turn: String) -> (r: Result<AppApproval, String>)
    ensures
        match questionnaire(view_or_null(p), thread@, turn@) {
            Ok(a) => r matches Ok(x) && x@ == a,
            Err(e) => r matches Err(x) && x@ == e,
        },
{
    let ghost pv = view_or_null(p);
    let questions = match items(field(p, "questions")) {
        Some(q) => q,
        None => return Err(String::from_str("Missing app confirmation question")),
    };
    if questions.len() != 1 {
        return Err(String::from_str("Answer this app's questions in Codex, then try again."));
    }
    let q = &questions[0];
    let secret = match field(Some(q), "isSecret") {
        Some(Json::Bool(true)) => true,
        _ => false,
    };
    let other = match field(Some(q), "isOther") {
        Some(Json::Bool(true)) => true,
        _ => false,
    };
    if secret || other {
        return Err(String::from_str("Complete this app's setup in Codex, then try again."));
    }
    let id = match nonempty_text_of(field(Some(q), "id")) {
        Some(id) => id,
        None => return Err(String::from_str("Missing question id")),
    };
    let question = match nonempty_text_of(field(Some(q), "question")) {
        Some(s) => s,
        None => return Err(String::from_str("Missing question text")),
    };
    let options = match items(field(Some(q), "options")) {
        Some(o) => o,
        None => return Err(String::from_str("Complete this app's setup in Codex, then try again.")),
    };
    let ghost ov = match elements(at(q@, "options"@)) {
        Some(s) => s,
        None => seq![],
    };
    let yes = match first_option(options, true, Ghost(ov)) {
        Some(y) => y,
        None => return Err(
            String::from_str("This app question is not a one-time confirmation. Answer it in Codex."),
        ),
    };
    let no = match first_option(options, false, Ghost(ov)) {
        Some(n) => n,
        None => return Err(String::from_str("Missing decline option")),
    };
    proof {
        lemma_first_labelled(ov, 0, approve_labels());
        lemma_first_labelled(ov, 0, decline_labels());
    }
    let mut details: Vec<String> = Vec::new();
    match nonempty_text_of(field(Some(&options[yes]), "description")) {
        Some(d) => details.push(d),
        None => {},
    }
    let accept = answer_for(id.as_str(), &options[yes]);
    let decline = answer_for(id.as_str(), &options[no]);
    let r = AppApproval { thread, turn, question, details, accept, decline };
    assert(r@.details =~= match nonempty_text(at(ov[yes as int], "description"@)) {
        Some(d) => seq![d],
        None => seq![],
    });
    Ok(r)
}

/// A parsed confirmation may still be answered: connected apps are enabled,
/// no stop is pending, its turn is the live turn and its thread the current one.
pub open spec fn approval_current(
    a: ApprovalView,
    enabled: bool,
    t: TranscriptView,
    thread: Option<Seq<char>>,
) -> bool {
    enabled && !t.stop_pending && t.accepts(a.turn) && thread == Some(a.thread)
}

/// The view of an optional string.
pub open spec fn opt_str(s: Option<&str>) -> Option<Seq<char>> {
    match s {
        Some(t) => Some(t@),
        None => None,
    }
}

/// Allow only ever sends an explicit one-time approval: the accept answer of
/// every parsed request is either the plain form acceptance or the answer
/// with an option labelled "Accept", "Allow once" or "Approve once"; the
/// decline answer is the form decline or an option labelled "Decline",
/// "Deny" or "Cancel", for the same question.
pub proof fn law_allow_is_an_explicit_one_time_answer(request: JsonView)
    requires
        approval_of(request) is Ok,
    ensures
        ({
            let a = approval_of(request)->Ok_0;
            ||| a.accept == form_reply(true) && a.decline == form_reply(false)
            ||| exists|id: Seq<char>, yes: JsonView, no: JsonView|
                labelled(yes, approve_labels()) && labelled(no, decline_labels()) && a.accept
                    == answer(id, yes) && a.decline == answer(id, no)
        }),
{
    let p = at(request, "params"@);
    let method = as_text(at(request, "method"@));
    if method == Some("item/tool/requestUserInput"@) || method == Some("tool/requestUserInput"@) {
        let q = elements(at(p, "questions"@))->Some_0[0];
        let options = elements(at(q, "options"@))->Some_0;
        let id = nonempty_text(at(q, "id"@))->Some_0;
        lemma_first_labelled(options, 0, approve_labels());
        lemma_first_labelled(options, 0, decline_labels());
        let y = first_labelled(options, 0, approve_labels())->Some_0;
        let n = first_labelled(options, 0, decline_labels())->Some_0;
        let a = approval_of(request)->Ok_0;
        assert(labelled(options[y], approve_labels()) && labelled(options[n], decline_labels())
            && a.accept == answer(id, options[y]) && a.decline == answer(id, options[n]));
    }
}

/// No confirmation can be answered once a stop is requested or the
/// connection is lost, whatever the request and the transcript were.
pub proof fn law_stop_and_disconnect_retire_confirmations(
    a: ApprovalView,
    enabled: bool,
    t: TranscriptView,
    thread: Option<Seq<char>>,
    now: u64,
)
    ensures
        !approval_current(a, enabled, t.applied(EventView::StopRequested, now), thread),
        !approval_current(a, enabled, t.applied(EventView::Disconnected, now), thread),
{
}

/// Only a one-time answer approves: "Accept", "Allow once" and "Approve
/// once" in any letter case do, while a persistent grant such as "Always
/// allow" or "Allow for this session" never does.
pub proof fn law_only_one_time_labels_approve(option: JsonView)
    ensures
        as_text(at(option, "label"@)) == Some("allow ONCE"@) ==> labelled(option, approve_labels()),
        as_text(at(option, "label"@)) == Some("Always allow"@) ==> !labelled(option, approve_labels()),
        as_text(at(option, "label"@)) == Some("Allow for this session"@) ==> !labelled(option, approve_labels()),
{
    reveal_strlit("Accept");
    reveal_strlit("Allow once");
    reveal_strlit("Approve once");
    reveal_strlit("allow ONCE");
    reveal_strlit("Always allow");
    reveal_strlit("Allow for this session");
    let labels = approve_labels();
    if as_text(at(option, "label"@)) == Some("allow ONCE"@) {
        assert(same_ignoring_case("allow ONCE"@, labels[1]));
    }
    if as_text(at(option, "label"@)) == Some("Always allow"@) {
        assert(!same_ignoring_case("Always allow"@, labels[2])) by {
            assert(!same_letter("Always allow"@[1], labels[2][1]));
        }
        assert(!same_ignoring_case("Always allow"@, labels[0]));
        assert(!same_ignoring_case("Always allow"@, labels[1]));
    }
}

/// What `first_labelled` returns: an index in range of an option so labelled.
pub proof fn lemma_first_labelled(options: Seq<JsonView>, i: int, labels: Seq<Seq<char>>)
    requires
        0 <= i,
    ensures
        first_labelled(options, i, labels) matches Some(k) ==> i <= k < options.len() && labelled(
            options[k],
            labels,
        ),
    decreases options.len() - i,
{
    if i < options.len() && !labelled(options[i], labels) {
        lemma_first_labelled(options, i + 1, labels);
    }
}

/// Parse a confirmation request; every refusal says why.
pub fn approval(request: &Json) -> (r: Result<AppApproval, String>)
    ensures
        match approval_of(request@) {
            Ok(a) => r matches Ok(x) && x@ == a,
            Err(e) => r matches Err(x) && x@ == e,
        },
{
    let p = field(Some(request), "params");
    let thread = match required_text(p, "threadId") {
        Ok(t) => t,
        Err(e) => return Err(e),
    };
    let turn = match required_text(p, "turnId") {
        Ok(t) => t,
        Err(e) => return Err(e),
    };
    let method = match field(Some(request), "method") {
        Some(m) => text_of(m),
        None => None,
    };
    let (user_input, elicitation) = match method {
        Some(m) => (
            str_eq(m, "item/tool/requestUserInput") || str_eq(m, "tool/requestUserInput"),
            str_eq(m, "mcpServer/elicitation/request"),
        ),
        None => (false, false),
    };
    if user_input {
        questionnaire_of(p, thread, turn)
    } else if elicitation {
        if !plain_confirmation_of(p) {
            return Err(
                String::from_str("Complete this app's form or connection in Codex, then try again."),
            );
        }
        let message = match required_text(p, "message") {
            Ok(m) => m,
            Err(e) => return Err(e),
        };
        let server = match required_text(p, "serverName") {
            Ok(s) => s,
            Err(e) => return Err(e),
        };
        let mut details: Vec<String> = Vec::new();
        details.push(String::from_str("Connected service: ").concat(server.as_str()));
        let r = AppApproval {
            thread,
            turn,
            question: message,
            details,
            accept: form_reply_value(true),
            decline: form_reply_value(false),
        };
        assert(r@.details =~= seq!["Connected service: "@ + server@]);
        Ok(r)
    } else {
        Err(String::from_str("Unsupported app confirmation"))
    }
}

fn plain_confirmation_of(p: Option<&Json>) -> (r: bool)
    ensures
        r == plain_confirmation(view_or_null(p)),
{
    let schema = field(p, "requestedSchema");
    let mode_ok = match field(p, "mode") {
        Some(m) => match text_of(m) {
            Some(t) => str_eq(t, "form") || str_eq(t, "openai/form") || str_eq(t, "openaiForm"),
            None => false,
        },
        None => false,
    };
    let type_ok = match field(schema, "type") {
        Some(t) => match text_of(t) {
            Some(t) => str_eq(t, "object"),
            None => false,
        },
        None => false,
    };
    let properties_ok = match field(schema, "properties") {
        Some(Json::Object(m)) => m.len() == 0,
        _ => false,
    };
    let required_ok = match schema {
        Some(s) => match get(s, "required") {
            Some(v) => match items(Some(v)) {
                Some(a) => a.len() == 0,
                None => false,
            },
            None => true,
        },
        None => true,
    };
    mode_ok && type_ok && properties_ok && required_ok
}

/// Always answer unsupported or stale requests so the server cannot wait
/// for a form the host does not display; empty answers cancel input.
pub fn decline_response(request: &Json) -> (r: Json)
    ensures
        r@ == decline_reply(request@),
{
    let elicitation = match field(Some(request), "method") {
        Some(m) => match text_of(m) {
            Some(t) => str_eq(t, "mcpServer/elicitation/request"),
            None => false,
        },
        None => false,
    };
    let result = if elicitation {
        form_reply_value(false)
    } else {
        object1("answers", object0())
    };
    crate::json::object2("id", copy_or_null(field(Some(request), "id")), "result", result)
}

impl AppApproval {
    /// The request still belongs to the live, unstopped turn of `thread`
    /// and the user has connected apps enabled.
    pub fn is_current(&self, enabled: bool, transcript: &Transcript, thread: Option<&str>) -> (r: bool)
        ensures
            r == approval_current(self@, enabled, transcript@, opt_str(thread)),
    {
        enabled && !transcript.stop_pending && transcript.accepts(self.turn.as_str()) && match thread {
            Some(t) => str_eq(t, self.thread.as_str()),
            None => false,
        }
    }

    /// The JSON-RPC reply to request `id`: the recorded Allow or Deny answer.
    pub fn response(&self, id: Json, allow: bool) -> (r: Json)
        ensures
            r@ == object(seq![("id"@, id@), ("result"@, if allow { self.accept@ } else { self.decline@ })]),
    {
        let result = if allow {
            copy(&self.accept)
        } else {
            copy(&self.decline)
        };
        crate::json::object2("id", id, "result", result)
    }
}

} // verus!
