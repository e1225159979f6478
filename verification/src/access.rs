//! One-time access requests queued for the user (workspace commands and
//! structure fetches): how an answer is decided, and the JSON-RPC replies
//! that tools and denied fetches receive.
use vstd::prelude::*;
use crate::json::{Json, JsonView, as_text, at, copy, field, get, member, object, text_of};
use crate::json_text::{json_text, to_text};
use crate::receipts::{changes_allowed, requires_edit, review_tool};
use crate::text::str_eq;
use crate::transcript::{Transcript, TranscriptView};

verus! {

/// What a pending request asks for.
pub enum AccessKind {
    /// A workspace command of `turn`.
    Command { turn: String },
    /// A structure fetch.
    Fetch,
}

/// A queued request, as the answer reads it.
pub struct PendingAccess {
    pub kind: AccessKind,
    /// Already approved and being carried out.
    pub approved: bool,
}

/// What answering a request does.
#[derive(Debug)]
pub enum AccessOutcome {
    /// Nothing: the request is gone or already approved.
    Ignore,
    /// Deny the request, with this reason.
    Deny(String),
    /// Send the one-time approval of the command.
    AllowCommand,
    /// Mark the request approved and start the fetch.
    StartFetch,
}

/// Plain-value model of an [`AccessOutcome`].
pub enum OutcomeView {
    Ignore,
    Deny(Seq<char>),
    AllowCommand,
    StartFetch,
}

impl View for AccessOutcome {
    type V = OutcomeView;

    open spec fn view(&self) -> OutcomeView {
        match self {
            AccessOutcome::Ignore => OutcomeView::Ignore,
            AccessOutcome::Deny(r) => OutcomeView::Deny(r@),
            AccessOutcome::AllowCommand => OutcomeView::AllowCommand,
            AccessOutcome::StartFetch => OutcomeView::StartFetch,
        }
    }
}

/// The outcome of the user's answer (`allow`) to a request: an approval
/// holds only while it is unexpired, the turn runs and is not stopping, and
/// the permission it needs (extended access for the command's own turn, edit
/// analysis for a fetch) is still granted.
pub open spec fn access_outcome(
    pending: Option<PendingAccess>,
    allow: bool,
    expired: bool,
    t: TranscriptView,
    extended: bool,
    allow_changes: bool,
    turn_edit: bool,
) -> OutcomeView {
    match pending {
        None => OutcomeView::Ignore,
        Some(p) => if p.approved {
            OutcomeView::Ignore
        } else if !allow || expired || !t.busy || t.stop_pending {
            OutcomeView::Deny(
                if allow {
                    "Approval expired or turn stopped"@
                } else {
                    "Denied by user"@
                },
            )
        } else {
            match p.kind {
                AccessKind::Command { turn } => if !extended || !t.accepts(turn@) {
                    OutcomeView::Deny("Extended access revoked"@)
                } else {
                    OutcomeView::AllowCommand
                },
                AccessKind::Fetch => if !(allow_changes && turn_edit && t.busy) {
                    OutcomeView::Deny("Edit analysis permission revoked"@)
                } else {
                    OutcomeView::StartFetch
                },
            }
        },
    }
}

/// Decide what the user's answer to a queued request does.
pub fn answer_access(
    pending: Option<&PendingAccess>,
    allow: bool,
    expired: bool,
    transcript: &Transcript,
    extended: bool,
    allow_changes: bool,
    turn_edit: bool,
) -> (r: AccessOutcome)
    ensures
        r@ == access_outcome(
            match pending {
                Some(p) => Some(*p),
                None => None,
            },
            allow,
            expired,
            transcript@,
            extended,
            allow_changes,
            turn_edit,
        ),
{
    let p = match pending {
        Some(p) => p,
        None => return AccessOutcome::Ignore,
    };
    if p.approved {
        return AccessOutcome::Ignore;
    }
    if !allow || expired || !transcript.busy || transcript.stop_pending {
        return AccessOutcome::Deny(
            if allow {
                String::from_str("Approval expired or turn stopped")
            } else {
                String::from_str("Denied by user")
            },
        );
    }
    match &p.kind {
        AccessKind::Command { turn } => {
            if !extended || !transcript.accepts(turn.as_str()) {
                AccessOutcome::Deny(String::from_str("Extended access revoked"))
            } else {
                AccessOutcome::AllowCommand
            }
        },
        AccessKind::Fetch => {
            if !changes_allowed(allow_changes, turn_edit, transcript.busy) {
                AccessOutcome::Deny(String::from_str("Edit analysis permission revoked"))
            } else {
                AccessOutcome::StartFetch
            }
        },
    }
}

/// Nothing is allowed without an explicit, unexpired Allow on a running
/// turn that is not stopping; a command needs extended access for its own
/// turn and a fetch needs edit permission.
pub proof fn law_allow_needs_explicit_live_consent(
    pending: Option<PendingAccess>,
    allow: bool,
    expired: bool,
    t: TranscriptView,
    extended: bool,
    allow_changes: bool,
    turn_edit: bool,
)
    ensures
        ({
            let o = access_outcome(pending, allow, expired, t, extended, allow_changes, turn_edit);
            (o is AllowCommand || o is StartFetch) ==> allow && !expired && t.busy && !t.stop_pending
        }),
        access_outcome(pending, allow, expired, t, extended, allow_changes, turn_edit) is AllowCommand
            ==> extended && (pending matches Some(p) && p.kind matches AccessKind::Command { turn }
            && t.accepts(turn@)),
        access_outcome(pending, allow, expired, t, extended, allow_changes, turn_edit) is StartFetch
            ==> allow_changes && turn_edit,
        !allow ==> !(access_outcome(pending, allow, expired, t, extended, allow_changes, turn_edit) is AllowCommand)
            && !(access_outcome(pending, allow, expired, t, extended, allow_changes, turn_edit) is StartFetch),
{
}

/// Why a workspace command is refused before it is queued.
pub open spec fn command_refusal() -> Seq<char> {
    "Command denied: Extended access is off or the turn has stopped"@
}

/// A command request may be queued only with extended access on, for the
/// live turn and the current thread.
pub fn command_gate(
    extended: bool,
    transcript: &Transcript,
    turn: &str,
    request_thread: &str,
    thread: Option<&str>,
) -> (r: Result<(), String>)
    ensures
        match r {
            Ok(_) => extended && transcript@.accepts(turn@) && (thread matches Some(t) && t@
                == request_thread@),
            Err(e) => !(extended && transcript@.accepts(turn@) && (thread matches Some(t) && t@
                == request_thread@)) && e@ == command_refusal(),
        },
{
    let same_thread = match thread {
        Some(t) => str_eq(t, request_thread),
        None => false,
    };
    if !extended || !transcript.accepts(turn) || !same_thread {
        return Err(String::from_str("Command denied: Extended access is off or the turn has stopped"));
    }
    Ok(())
}

/// Whether `std::path::Path::starts_with` holds of `path` and `base`
/// (whole components).
pub uninterp spec fn starts_with_path(path: Seq<char>, base: Seq<char>) -> bool;

/// `std::path::Path::starts_with`: the contract only names its result.
#[verifier::external_body]
fn path_starts_with(path: &str, base: &str) -> (r: bool)
    ensures
        r == starts_with_path(path@, base@),
{
    std::path::Path::new(path).starts_with(base)
}

/// A command's (canonical) working directory must be a directory inside the
/// (canonical) workspace root.
pub fn cwd_check(root: &str, cwd: &str, cwd_is_dir: bool) -> (r: Result<(), String>)
    ensures
        match r {
            Ok(_) => starts_with_path(cwd@, root@) && cwd_is_dir,
            Err(e) => !(starts_with_path(cwd@, root@) && cwd_is_dir)
                && e@ == "Command cwd must be inside the assistant workspace"@,
        },
{
    if !path_starts_with(cwd, root) || !cwd_is_dir {
        return Err(String::from_str("Command cwd must be inside the assistant workspace"));
    }
    Ok(())
}

/// The status line shown while a tool runs.
pub open spec fn tool_status_of(tool: Seq<char>) -> Seq<char> {
    if tool == "xray_get_state"@ {
        "Reading analysis…"@
    } else if tool == "xray_get_plots"@ {
        "Inspecting plots…"@
    } else if tool == "xray_navigate"@ {
        "Updating view…"@
    } else if tool == "xray_set_layout"@ {
        "Updating layout…"@
    } else if tool == "xray_search_structures"@ {
        "Searching structures…"@
    } else if tool == "xray_choose_structure"@ {
        "Loading structure…"@
    } else if tool == "xray_fetch_structure"@ {
        "Requesting structure access…"@
    } else if tool == "xray_calculate_paths"@ {
        "Calculating paths…"@
    } else if tool == "xray_run_fit"@ {
        "Fitting…"@
    } else {
        "Updating model…"@
    }
}

/// The status line shown while `tool` runs.
pub fn tool_status(tool: &str) -> (r: &'static str)
    ensures
        r@ == tool_status_of(tool@),
{
    if str_eq(tool, "xray_get_state") {
        "Reading analysis…"
    } else if str_eq(tool, "xray_get_plots") {
        "Inspecting plots…"
    } else if str_eq(tool, "xray_navigate") {
        "Updating view…"
    } else if str_eq(tool, "xray_set_layout") {
        "Updating layout…"
    } else if str_eq(tool, "xray_search_structures") {
        "Searching structures…"
    } else if str_eq(tool, "xray_choose_structure") {
        "Loading structure…"
    } else if str_eq(tool, "xray_fetch_structure") {
        "Requesting structure access…"
    } else if str_eq(tool, "xray_calculate_paths") {
        "Calculating paths…"
    } else if str_eq(tool, "xray_run_fit") {
        "Fitting…"
    } else {
        "Updating model…"
    }
}

/// How a tool call is received.
#[derive(Debug)]
pub enum ToolAdmission {
    /// Answer it at once with this error; nothing is shown.
    Refuse(String),
    /// Show the call of `tool` as started, with its status `label`; then run
    /// it, or, when `edit_refused`, answer that edits are disabled.
    Start { turn: String, call: String, tool: String, label: &'static str, edit_refused: bool },
}

/// Plain-value model of a [`ToolAdmission`].
pub enum AdmissionView {
    Refuse(Seq<char>),
    Start { turn: Seq<char>, call: Seq<char>, tool: Seq<char>, label: Seq<char>, edit_refused: bool },
}

impl View for ToolAdmission {
    type V = AdmissionView;

    open spec fn view(&self) -> AdmissionView {
        match self {
            ToolAdmission::Refuse(e) => AdmissionView::Refuse(e@),
            ToolAdmission::Start { turn, call, tool, label, edit_refused } => AdmissionView::Start {
                turn: turn@,
                call: call@,
                tool: tool@,
                label: label@,
                edit_refused: *edit_refused,
            },
        }
    }
}

/// How a tool call (`params` of an `item/tool/call` request) is received:
/// it needs its turn and call ids and a live turn; a tool that changes the
/// analysis needs edit mode for a running turn.
pub open spec fn admission_of(
    params: JsonView,
    t: TranscriptView,
    allow_changes: bool,
    turn_edit: bool,
) -> AdmissionView {
    let tool = match as_text(at(params, "tool"@)) {
        Some(s) => s,
        None => seq![],
    };
    match (as_text(at(params, "turnId"@)), as_text(at(params, "callId"@))) {
        (Some(turn), Some(call)) => if !t.accepts(turn) {
            AdmissionView::Refuse("The assistant turn has stopped"@)
        } else {
            AdmissionView::Start {
                turn,
                call,
                tool,
                label: tool_status_of(tool),
                edit_refused: !review_tool(tool) && !(allow_changes && turn_edit && t.busy),
            }
        },
        _ => AdmissionView::Refuse("Missing tool turn or call id"@),
    }
}

/// Receive a tool call.
pub fn admit_tool_call(
    params: &Json,
    transcript: &Transcript,
    allow_changes: bool,
    turn_edit: bool,
) -> (r: ToolAdmission)
    ensures
        r@ == admission_of(params@, transcript@, allow_changes, turn_edit),
{
    let tool = match field(Some(params), "tool") {
        Some(v) => match text_of(v) {
            Some(s) => s,
            None => "",
        },
        None => "",
    };
    proof {
        reveal_strlit("");
    }
    assert(tool@ == (match as_text(at(params@, "tool"@)) {
        Some(s) => s,
        None => seq![],
    }));
    let turn = match field(Some(params), "turnId") {
        Some(v) => text_of(v),
        None => None,
    };
    let call = match field(Some(params), "callId") {
        Some(v) => text_of(v),
        None => None,
    };
    match (turn, call) {
        (Some(turn), Some(call)) => {
            if !transcript.accepts(turn) {
                return ToolAdmission::Refuse(String::from_str("The assistant turn has stopped"));
            }
            let edit_refused = requires_edit(tool) && !changes_allowed(
                allow_changes,
                turn_edit,
                transcript.busy,
            );
            assert(as_text(at(params@, "turnId"@)) == Some(turn@));
            assert(as_text(at(params@, "callId"@)) == Some(call@));
            ToolAdmission::Start {
                turn: String::from_str(turn),
                call: String::from_str(call),
                tool: String::from_str(tool),
                label: tool_status(tool),
                edit_refused,
            }
        },
        _ => ToolAdmission::Refuse(String::from_str("Missing tool turn or call id")),
    }
}

/// A tool runs only for the live turn, and one that changes the analysis
/// only in edit mode during a running turn.
pub proof fn law_tools_run_only_when_permitted(
    params: JsonView,
    t: TranscriptView,
    allow_changes: bool,
    turn_edit: bool,
)
    ensures
        admission_of(params, t, allow_changes, turn_edit) matches AdmissionView::Start {
            turn,
            tool,
            edit_refused,
            ..
        } ==> t.accepts(turn) && (!edit_refused && !review_tool(tool) ==> allow_changes && turn_edit
            && t.busy),
{
}

/// The read-only tools (state, plots, navigation, layout and structure
/// search) are never refused for edit mode; any other tool admitted for the
/// live turn is refused exactly when changes are not allowed, that is unless
/// the user allows changes, the turn was sent in edit mode and it runs.
pub proof fn law_edit_refusal_only_for_editing_tools(
    params: JsonView,
    t: TranscriptView,
    allow_changes: bool,
    turn_edit: bool,
)
    ensures
        admission_of(params, t, allow_changes, turn_edit) matches AdmissionView::Start {
            tool,
            edit_refused,
            ..
        } ==> {
            let read_only = tool == "xray_get_state"@ || tool == "xray_get_plots"@ || tool
                == "xray_navigate"@ || tool == "xray_set_layout"@ || tool == "xray_search_structures"@;
            &&& read_only ==> !edit_refused
            &&& !read_only ==> (edit_refused <==> !(allow_changes && turn_edit && t.busy))
        },
{
}

/// Web search and extended access after a toggle, and the note that says so.
#[derive(Debug)]
pub struct AccessToggle {
    pub web_search: bool,
    pub extended_access: bool,
    pub note: String,
}

/// Toggling extended access (`extended`) or web search, which is not
/// possible while a turn runs or stops or while connecting: exactly that
/// setting flips, the connection is renewed on the next turn, and the note
/// names the setting and its new state.
pub open spec fn toggled(extended: bool, web_search: bool, extended_access: bool) -> (bool, bool, Seq<char>) {
    let web = if extended {
        web_search
    } else {
        !web_search
    };
    let ext = if extended {
        !extended_access
    } else {
        extended_access
    };
    let name = if extended {
        "Extended access"@
    } else {
        "Web search"@
    };
    let on = if extended {
        ext
    } else {
        web
    };
    (web, ext, name + " "@ + (if on {
        "on"@
    } else {
        "off"@
    }) + " · reconnecting on next turn"@)
}

/// A toggle flips exactly the chosen setting and leaves the other alone;
/// toggling the same setting twice restores both.
pub proof fn law_toggle_flips_only_its_setting(extended: bool, web_search: bool, extended_access: bool)
    ensures
        extended ==> toggled(extended, web_search, extended_access).1 == !extended_access
            && toggled(extended, web_search, extended_access).0 == web_search,
        !extended ==> toggled(extended, web_search, extended_access).0 == !web_search
            && toggled(extended, web_search, extended_access).1 == extended_access,
        ({
            let (w, e, _) = toggled(extended, web_search, extended_access);
            toggled(extended, w, e).0 == web_search && toggled(extended, w, e).1 == extended_access
        }),
{
}

/// Toggle extended access or web search (see [`toggled`]); `None` while a
/// turn runs or stops or while connecting.
pub fn toggle_access(
    extended: bool,
    busy: bool,
    connecting: bool,
    stop_pending: bool,
    web_search: bool,
    extended_access: bool,
) -> (r: Option<AccessToggle>)
    ensures
        match r {
            Some(t) => !busy && !connecting && !stop_pending && (t.web_search, t.extended_access, t.note@)
                == toggled(extended, web_search, extended_access),
            None => busy || connecting || stop_pending,
        },
{
    if busy || connecting || stop_pending {
        return None;
    }
    let web = if extended {
        web_search
    } else {
        !web_search
    };
    let ext = if extended {
        !extended_access
    } else {
        extended_access
    };
    let mut note = String::from_str(if extended {
        "Extended access"
    } else {
        "Web search"
    });
    note.append(" ");
    let on = if extended {
        ext
    } else {
        web
    };
    note.append(if on {
        "on"
    } else {
        "off"
    });
    note.append(" · reconnecting on next turn");
    Some(AccessToggle { web_search: web, extended_access: ext, note })
}

/// `[{"text": text, "type": "inputText"}]`.
pub open spec fn text_items(text: Seq<char>) -> JsonView {
    JsonView::Array(
        seq![object(seq![("text"@, JsonView::Str(text)), ("type"@, JsonView::Str("inputText"@))])],
    )
}

/// The reply to tool call `id`: its content items and whether it succeeded.
pub open spec fn reply(id: JsonView, success: bool, contents: JsonView) -> JsonView {
    object(
        seq![
            ("id"@, id),
            ("result"@, object(seq![("contentItems"@, contents), ("success"@, JsonView::Bool(success))])),
        ],
    )
}

/// The reply that a tool's result becomes: a value's own "contentItems"
/// when it has them, else its compact JSON text as one text item; an error
/// as its text, unsuccessful.
pub open spec fn tool_reply_of(id: JsonView, result: Result<JsonView, Seq<char>>) -> JsonView {
    match result {
        Ok(v) => reply(
            id,
            true,
            match member(v, "contentItems"@) {
                Some(items) => items,
                None => text_items(json_text(v)),
            },
        ),
        Err(e) => reply(id, false, text_items(e)),
    }
}

fn text_items_value(text: String) -> (r: Json)
    ensures
        r@ == text_items(text@),
{
    let item = crate::json::object2("text", Json::Str(text), "type", Json::Str(String::from_str("inputText")));
    let r = crate::json::array1(item);
    r
}

fn reply_value(id: Json, success: bool, contents: Json) -> (r: Json)
    ensures
        r@ == reply(id@, success, contents@),
{
    let result = crate::json::object2("contentItems", contents, "success", Json::Bool(success));
    crate::json::object2("id", id, "result", result)
}

/// The JSON-RPC reply to tool call `id` with `result`.
pub fn tool_reply(id: Json, result: Result<Json, String>) -> (r: Json)
    ensures
        r@ == tool_reply_of(
            id@,
            match result {
                Ok(v) => Ok(v@),
                Err(e) => Err(e@),
            },
        ),
{
    match result {
        Ok(value) => {
            let contents = match get(&value, "contentItems") {
                Some(items) => copy(items),
                None => text_items_value(to_text(&value)),
            };
            reply_value(id, true, contents)
        },
        Err(text) => reply_value(id, false, text_items_value(text)),
    }
}

/// The reply that denies a structure fetch, with the reason as its text.
pub fn fetch_denial(id: Json, reason: &str) -> (r: Json)
    ensures
        r@ == reply(id@, false, text_items(reason@)),
{
    reply_value(id, false, text_items_value(String::from_str(reason)))
}

/// Each tool shows its own status line while it runs; tools without one of
/// their own show "Updating model…".
pub proof fn law_tool_status_lines(tool: Seq<char>)
    ensures
        tool == "xray_get_state"@ ==> tool_status_of(tool) == "Reading analysis…"@,
        tool == "xray_get_plots"@ ==> tool_status_of(tool) == "Inspecting plots…"@,
        tool == "xray_navigate"@ ==> tool_status_of(tool) == "Updating view…"@,
        tool == "xray_set_layout"@ ==> tool_status_of(tool) == "Updating layout…"@,
        tool == "xray_search_structures"@ ==> tool_status_of(tool) == "Searching structures…"@,
        tool == "xray_choose_structure"@ ==> tool_status_of(tool) == "Loading structure…"@,
        tool == "xray_fetch_structure"@ ==> tool_status_of(tool) == "Requesting structure access…"@,
        tool == "xray_calculate_paths"@ ==> tool_status_of(tool) == "Calculating paths…"@,
        tool == "xray_run_fit"@ ==> tool_status_of(tool) == "Fitting…"@,
        !(tool == "xray_get_state"@ || tool == "xray_get_plots"@ || tool == "xray_navigate"@ || tool
            == "xray_set_layout"@ || tool == "xray_search_structures"@ || tool == "xray_choose_structure"@
            || tool == "xray_fetch_structure"@ || tool == "xray_calculate_paths"@ || tool == "xray_run_fit"@)
            ==> tool_status_of(tool) == "Updating model…"@,
{
    reveal_strlit("xray_get_state");
    reveal_strlit("xray_get_plots");
    reveal_strlit("xray_navigate");
    reveal_strlit("xray_set_layout");
    reveal_strlit("xray_search_structures");
    reveal_strlit("xray_choose_structure");
    reveal_strlit("xray_fetch_structure");
    reveal_strlit("xray_calculate_paths");
    reveal_strlit("xray_run_fit");
    let names = seq![
        "xray_get_state"@,
        "xray_get_plots"@,
        "xray_navigate"@,
        "xray_set_layout"@,
        "xray_search_structures"@,
        "xray_choose_structure"@,
        "xray_fetch_structure"@,
        "xray_calculate_paths"@,
        "xray_run_fit"@,
    ];
    assert forall|a: int, b: int| 0 <= a < b < 9 implies names[a] != names[b] by {
        if names[a].len() == names[b].len() {
            assert(names[a][5] != names[b][5] || names[a][6] != names[b][6] || names[a][9] != names[b][9]
                || names[a][12] != names[b][12]);
        }
    }
    assert(names[0] != names[1]);
}

/// A tool call is answered under its own id: a result succeeds, carrying
/// the value's content items or its JSON text; an error fails, carrying
/// its text.
pub proof fn law_tool_replies_answer_their_call(id: JsonView, result: Result<JsonView, Seq<char>>)
    ensures
        member(tool_reply_of(id, result), "id"@) == Some(id),
        member(tool_reply_of(id, result), "result"@) matches Some(res) && member(res, "success"@)
            == Some(JsonView::Bool(result is Ok)),
        result matches Err(e) ==> member(at(tool_reply_of(id, result), "result"@), "contentItems"@)
            == Some(text_items(e)),
        result matches Ok(v) ==> member(at(tool_reply_of(id, result), "result"@), "contentItems"@)
            == Some(
            match member(v, "contentItems"@) {
                Some(items) => items,
                None => text_items(json_text(v)),
            },
        ),
{
    reveal_strlit("id");
    reveal_strlit("result");
    reveal_strlit("contentItems");
    reveal_strlit("success");
    assert("id"@.len() != "result"@.len());
    assert("contentItems"@.len() != "success"@.len());
    reveal_with_fuel(crate::json::lookup, 3);
}

} // verus!
