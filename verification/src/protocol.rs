//! Decisions on messages from the Codex app server: the transcript event
//! that a streamed item or a finished turn becomes, which notifications
//! belong to another turn, what a failed request leads to, and the reply to
//! a request this client does not serve.
use vstd::prelude::*;
use crate::json::{Json, JsonView, as_text, at, elements, field, items, object, text_of};
use crate::text::{join, join_seq, str_eq, trim, trimmed, views};
use crate::transcript::{Event, EventView, ItemKind, Transcript, TranscriptView, Update, UpdateView};

verus! {

/// The text of `key` in `j`, when it is a string.
pub open spec fn text_at(j: JsonView, key: Seq<char>) -> Option<Seq<char>> {
    as_text(at(j, key))
}

/// Which item a streaming notification is about.
pub open spec fn item_kind_of(method: Seq<char>, params: JsonView) -> Option<ItemKind> {
    if method == "item/agentMessage/delta"@ {
        Some(ItemKind::Assistant)
    } else if method == "item/reasoning/summaryTextDelta"@ {
        Some(ItemKind::Thinking)
    } else if method == "item/started"@ || method == "item/completed"@ {
        let t = text_at(at(params, "item"@), "type"@);
        if t == Some("agentMessage"@) {
            Some(ItemKind::Assistant)
        } else if t == Some("reasoning"@) {
            Some(ItemKind::Thinking)
        } else {
            None
        }
    } else {
        None
    }
}

/// The text of one reasoning summary part: a string, or an object's "text".
pub open spec fn part_text(part: JsonView) -> Option<Seq<char>> {
    match as_text(part) {
        Some(s) => Some(s),
        None => text_at(part, "text"@),
    }
}

/// The texts of the summary parts that have one, in order.
pub open spec fn part_texts(parts: Seq<JsonView>) -> Seq<Seq<char>>
    decreases parts.len(),
{
    if parts.len() == 0 {
        seq![]
    } else {
        part_texts(parts.drop_last()) + match part_text(parts.last()) {
            Some(s) => seq![s],
            None => seq![],
        }
    }
}

/// The final text of a completed item: an answer's text; reasoning's
/// summary parts joined by newlines unless blank, else its text.
pub open spec fn completed_text(kind: ItemKind, item: JsonView) -> Option<Seq<char>> {
    match kind {
        ItemKind::Assistant => text_at(item, "text"@),
        ItemKind::Thinking => {
            let summary = match elements(at(item, "summary"@)) {
                Some(parts) => {
                    let s = join_seq(part_texts(parts), "\n"@);
                    if trimmed(s).len() > 0 {
                        Some(s)
                    } else {
                        None
                    }
                },
                None => None,
            };
            match summary {
                Some(s) => Some(s),
                None => text_at(item, "text"@),
            }
        },
    }
}

/// The transcript event of a streaming notification, when it names an
/// answer or reasoning item with its turn and item ids.
pub open spec fn item_event_of(method: Seq<char>, params: JsonView) -> Option<EventView> {
    match item_kind_of(method, params) {
        None => None,
        Some(kind) => match text_at(params, "turnId"@) {
            None => None,
            Some(turn) => {
                let id = match text_at(params, "itemId"@) {
                    Some(i) => Some(i),
                    None => text_at(at(params, "item"@), "id"@),
                };
                match id {
                    None => None,
                    Some(id) => Some(
                        EventView::Item {
                            turn,
                            id,
                            kind,
                            update: if method == "item/started"@ {
                                UpdateView::Started
                            } else if method == "item/completed"@ {
                                UpdateView::Completed(completed_text(kind, at(params, "item"@)))
                            } else {
                                UpdateView::Delta(
                                    match text_at(params, "delta"@) {
                                        Some(d) => d,
                                        None => seq![],
                                    },
                                )
                            },
                        },
                    ),
                }
            },
        },
    }
}

fn summary_of(item: Option<&Json>) -> (r: Option<String>)
    ensures
        match elements(at(view_or_null_of(item), "summary"@)) {
            Some(parts) => {
                let s = join_seq(part_texts(parts), "\n"@);
                match r {
                    Some(t) => trimmed(s).len() > 0 && t@ == s,
                    None => trimmed(s).len() == 0,
                }
            },
            None => r is None,
        },
{
    let summary = field(item, "summary");
    let parts = match items(summary) {
        Some(p) => p,
        None => return None,
    };
    let ghost pv = elements(at(view_or_null_of(item), "summary"@))->Some_0;
    let mut texts: Vec<String> = Vec::new();
    let n = parts.len();
    let mut i: usize = 0;
    while i < n
        invariant
            n == parts@.len(),
            pv.len() == n,
            forall|k: int| 0 <= k < n ==> #[trigger] pv[k] == parts@[k]@,
            i <= n,
            views(texts@) == part_texts(pv.take(i as int)),
        decreases n - i,
    {
        let part = &parts[i];
        let text = match text_of(part) {
            Some(s) => Some(s),
            None => match field(Some(part), "text") {
                Some(t) => text_of(t),
                None => None,
            },
        };
        assert(pv.take(i + 1).drop_last() =~= pv.take(i as int));
        assert(pv.take(i + 1).last() == parts@[i as int]@);
        let ghost before = texts@;
        match text {
            Some(s) => {
                texts.push(String::from_str(s));
                assert(views(texts@) =~= views(before).push(s@));
            },
            None => {},
        }
        assert(views(texts@) =~= part_texts(pv.take(i + 1)));
        i = i + 1;
    }
    assert(pv.take(n as int) =~= pv);
    let joined = join(&texts, "\n");
    if trim(joined.as_str()).unicode_len() > 0 {
        Some(joined)
    } else {
        None
    }
}

/// The view of an optional value, null when absent.
pub open spec fn view_or_null_of(j: Option<&Json>) -> JsonView {
    match j {
        Some(v) => v@,
        None => JsonView::Null,
    }
}

fn opt_string(s: Option<&str>) -> (r: Option<String>)
    ensures
        match s {
            Some(t) => r matches Some(u) && u@ == t@,
            None => r is None,
        },
{
    match s {
        Some(t) => Some(String::from_str(t)),
        None => None,
    }
}

/// The transcript event of a streaming notification (see [`item_event_of`]).
pub fn item_event(method: &str, params: &Json) -> (r: Option<Event>)
    ensures
        match r {
            Some(e) => item_event_of(method@, params@) == Some(e@),
            None => item_event_of(method@, params@) is None,
        },
{
    let item = field(Some(params), "item");
    let kind = if str_eq(method, "item/agentMessage/delta") {
        ItemKind::Assistant
    } else if str_eq(method, "item/reasoning/summaryTextDelta") {
        ItemKind::Thinking
    } else if str_eq(method, "item/started") || str_eq(method, "item/completed") {
        match field(item, "type") {
            Some(t) => match text_of(t) {
                Some(s) => if str_eq(s, "agentMessage") {
                    ItemKind::Assistant
                } else if str_eq(s, "reasoning") {
                    ItemKind::Thinking
                } else {
                    return None;
                },
                None => return None,
            },
            None => return None,
        }
    } else {
        return None;
    };
    assert(item_kind_of(method@, params@) == Some(kind));
    let turn = match field(Some(params), "turnId") {
        Some(t) => match text_of(t) {
            Some(s) => s,
            None => return None,
        },
        None => return None,
    };
    let id_field = field(Some(params), "itemId");
    let id = match id_field {
        Some(v) => text_of(v),
        None => None,
    };
    let id = match id {
        Some(s) => s,
        None => match field(item, "id") {
            Some(v) => match text_of(v) {
                Some(s) => s,
                None => return None,
            },
            None => return None,
        },
    };
    let update = if str_eq(method, "item/started") {
        Update::Started
    } else if str_eq(method, "item/completed") {
        let text = match kind {
            ItemKind::Assistant => match field(item, "text") {
                Some(v) => opt_string(text_of(v)),
                None => None,
            },
            ItemKind::Thinking => match summary_of(item) {
                Some(s) => Some(s),
                None => match field(item, "text") {
                    Some(v) => opt_string(text_of(v)),
                    None => None,
                },
            },
        };
        Update::Completed(text)
    } else {
        let delta = match field(Some(params), "delta") {
            Some(v) => match text_of(v) {
                Some(s) => String::from_str(s),
                None => String::new(),
            },
            None => String::new(),
        };
        Update::Delta(delta)
    };
    Some(Event::Item { turn: String::from_str(turn), id: String::from_str(id), kind, update })
}

/// The event of a `turn/completed` notification: the turn and its error
/// message, if it failed.
pub open spec fn turn_completed_of(params: JsonView) -> Option<EventView> {
    match text_at(at(params, "turn"@), "id"@) {
        Some(turn) => Some(
            EventView::TurnCompleted {
                turn,
                error: text_at(at(at(params, "turn"@), "error"@), "message"@),
            },
        ),
        None => None,
    }
}

/// The event of a `turn/completed` notification.
pub fn turn_completed_event(params: &Json) -> (r: Option<Event>)
    ensures
        match r {
            Some(e) => turn_completed_of(params@) == Some(e@),
            None => turn_completed_of(params@) is None,
        },
{
    let turn = field(Some(params), "turn");
    let id = match field(turn, "id") {
        Some(v) => match text_of(v) {
            Some(s) => s,
            None => return None,
        },
        None => return None,
    };
    let error = match field(field(turn, "error"), "message") {
        Some(v) => opt_string(text_of(v)),
        None => None,
    };
    Some(Event::TurnCompleted { turn: String::from_str(id), error })
}

/// A notification names a turn that is not the current one; tool calls are
/// checked on their own.
pub open spec fn for_other_turn(method: Seq<char>, params: JsonView, t: TranscriptView) -> bool {
    method != "item/tool/call"@ && match text_at(params, "turnId"@) {
        Some(id) => t.turn != Some(id),
        None => false,
    }
}

/// Whether a notification belongs to another turn and is dropped.
pub fn other_turn(method: &str, params: &Json, transcript: &Transcript) -> (r: bool)
    ensures
        r == for_other_turn(method@, params@, transcript@),
{
    if str_eq(method, "item/tool/call") {
        return false;
    }
    match field(Some(params), "turnId") {
        Some(v) => match text_of(v) {
            Some(id) => match &transcript.turn {
                Some(t) => !str_eq(t.as_str(), id),
                None => true,
            },
            None => false,
        },
        None => false,
    }
}

/// Protocol ids are scoped to the current turn: a streamed item that is not
/// dropped as another turn's carries the current turn's id.
pub proof fn law_items_that_pass_belong_to_the_current_turn(
    method: Seq<char>,
    params: JsonView,
    t: TranscriptView,
)
    requires
        !for_other_turn(method, params, t),
        item_event_of(method, params) is Some,
    ensures
        item_event_of(method, params) matches Some(EventView::Item { turn, .. }) && t.turn == Some(turn),
{
    reveal_strlit("item/tool/call");
    reveal_strlit("item/agentMessage/delta");
    reveal_strlit("item/reasoning/summaryTextDelta");
    reveal_strlit("item/started");
    reveal_strlit("item/completed");
    assert(method != "item/tool/call"@) by {
        if method == "item/tool/call"@ {
            assert(method[5] != "item/agentMessage/delta"@[5]);
            assert(method[5] != "item/reasoning/summaryTextDelta"@[5]);
            assert(method[5] != "item/started"@[5]);
            assert(method[5] != "item/completed"@[5]);
        }
    }
}

/// The streaming method names differ from one another.
proof fn lemma_item_methods_distinct()
    ensures
        "item/agentMessage/delta"@ != "item/reasoning/summaryTextDelta"@,
        "item/agentMessage/delta"@ != "item/started"@,
        "item/agentMessage/delta"@ != "item/completed"@,
        "item/reasoning/summaryTextDelta"@ != "item/started"@,
        "item/reasoning/summaryTextDelta"@ != "item/completed"@,
{
    reveal_strlit("item/agentMessage/delta");
    reveal_strlit("item/reasoning/summaryTextDelta");
    reveal_strlit("item/started");
    reveal_strlit("item/completed");
    assert("item/agentMessage/delta"@[5] != "item/reasoning/summaryTextDelta"@[5]);
    assert("item/agentMessage/delta"@[5] != "item/started"@[5]);
    assert("item/agentMessage/delta"@[5] != "item/completed"@[5]);
    assert("item/reasoning/summaryTextDelta"@[5] != "item/started"@[5]);
    assert("item/reasoning/summaryTextDelta"@[5] != "item/completed"@[5]);
}

/// An answer delta or a reasoning-summary delta that names its turn and
/// item becomes an item event of that turn and item, of the method's kind
/// (answer or reasoning), whose update is the notification's `delta` text
/// exactly (empty only when there is none).
pub proof fn law_delta_notifications_carry_their_text(method: Seq<char>, params: JsonView)
    requires
        method == "item/agentMessage/delta"@ || method == "item/reasoning/summaryTextDelta"@,
        text_at(params, "turnId"@) is Some,
        text_at(params, "itemId"@) is Some,
    ensures
        item_event_of(method, params) == Some(
            EventView::Item {
                turn: text_at(params, "turnId"@)->Some_0,
                id: text_at(params, "itemId"@)->Some_0,
                kind: if method == "item/agentMessage/delta"@ {
                    ItemKind::Assistant
                } else {
                    ItemKind::Thinking
                },
                update: UpdateView::Delta(
                    match text_at(params, "delta"@) {
                        Some(d) => d,
                        None => seq![],
                    },
                ),
            },
        ),
{
    lemma_item_methods_distinct();
}

/// Every item event of a notification other than `item/started` and
/// `item/completed` is a delta carrying exactly the notification's `delta`
/// text.
pub proof fn law_item_deltas_keep_the_delta_text(method: Seq<char>, params: JsonView)
    requires
        method != "item/started"@,
        method != "item/completed"@,
        item_event_of(method, params) is Some,
    ensures
        item_event_of(method, params) matches Some(EventView::Item { update, .. }) && update
            == UpdateView::Delta(
            match text_at(params, "delta"@) {
                Some(d) => d,
                None => seq![],
            },
        ),
{
}

/// Start and completion notifications name their item's kind by its type
/// ("agentMessage" is an answer, "reasoning" is reasoning) and its id by
/// `itemId`, else by the item's own `id`. A start carries no text; a
/// completed answer carries the item's `text`; completed reasoning carries
/// its summary parts joined by newlines when they are not blank, else its
/// `text`. Items of other types are not transcript items.
pub proof fn law_item_lifecycle_notifications(method: Seq<char>, params: JsonView)
    requires
        method == "item/started"@ || method == "item/completed"@,
    ensures
        ({
            let item = at(params, "item"@);
            let ty = text_at(item, "type"@);
            let id = match text_at(params, "itemId"@) {
                Some(i) => Some(i),
                None => text_at(item, "id"@),
            };
            if ty != Some("agentMessage"@) && ty != Some("reasoning"@) {
                item_event_of(method, params) is None
            } else if text_at(params, "turnId"@) is None || id is None {
                item_event_of(method, params) is None
            } else {
                item_event_of(method, params) matches Some(EventView::Item { turn, id: i, kind, update }) && {
                    &&& turn == text_at(params, "turnId"@)->Some_0
                    &&& i == id->Some_0
                    &&& kind == if ty == Some("agentMessage"@) {
                        ItemKind::Assistant
                    } else {
                        ItemKind::Thinking
                    }
                    &&& method == "item/started"@ ==> update == UpdateView::Started
                    &&& (method == "item/completed"@ && kind == ItemKind::Assistant) ==> update
                        == UpdateView::Completed(text_at(item, "text"@))
                    &&& (method == "item/completed"@ && kind == ItemKind::Thinking) ==> update
                        == UpdateView::Completed(
                        match elements(at(item, "summary"@)) {
                            Some(parts) if trimmed(join_seq(part_texts(parts), "\n"@)).len() > 0 => Some(
                                join_seq(part_texts(parts), "\n"@),
                            ),
                            _ => text_at(item, "text"@),
                        },
                    )
                }
            }
        }),
{
    lemma_item_methods_distinct();
    reveal_strlit("item/started");
    reveal_strlit("item/completed");
    reveal_strlit("agentMessage");
    reveal_strlit("reasoning");
    assert("item/started"@[5] != "item/completed"@[5]);
    assert("agentMessage"@[0] != "reasoning"@[0]);
}

/// A turn completion names its turn by `turn.id` and, when it failed, the
/// failure by `turn.error.message`; without a turn id it is no event.
pub proof fn law_turn_completion_names_turn_and_error(params: JsonView)
    ensures
        match text_at(at(params, "turn"@), "id"@) {
            Some(turn) => turn_completed_of(params) == Some(
                EventView::TurnCompleted { turn, error: text_at(at(at(params, "turn"@), "error"@), "message"@) },
            ),
            None => turn_completed_of(params) is None,
        },
{
}

/// Notifications that name a turn other than the current one are dropped;
/// tool calls, and notifications that name no turn, never are; those of
/// the current turn pass.
pub proof fn law_other_turns_are_filtered(method: Seq<char>, params: JsonView, t: TranscriptView)
    ensures
        method == "item/tool/call"@ ==> !for_other_turn(method, params, t),
        text_at(params, "turnId"@) is None ==> !for_other_turn(method, params, t),
        (method != "item/tool/call"@ && text_at(params, "turnId"@) is Some) ==> (for_other_turn(
            method,
            params,
            t,
        ) <==> t.turn != text_at(params, "turnId"@)),
{
}

/// A JSON-RPC request: `{"id": id, "method": method, "params": params}`.
pub open spec fn request_of(id: nat, method: Seq<char>, params: JsonView) -> JsonView {
    object(
        seq![
            ("id"@, JsonView::Number(crate::text::decimal(id))),
            ("method"@, JsonView::Str(method)),
            ("params"@, params),
        ],
    )
}

/// The request with id `id`, and the id of the next request; ids are never
/// reused.
pub fn request_message(id: u64, method: &str, params: Json) -> (r: (Json, u64))
    requires
        id < u64::MAX,
    ensures
        r.0@ == request_of(id as nat, method@, params@),
        r.1 == id + 1,
{
    let mut members: Vec<(String, Json)> = Vec::new();
    members.push((String::from_str("id"), Json::Number(crate::text::decimal_text(id))));
    members.push((String::from_str("method"), Json::Str(String::from_str(method))));
    members.push((String::from_str("params"), params));
    let ghost pv = params@;
    let m = crate::json::object_value(members);
    assert(Seq::new(members@.len(), |i: int| (members@[i].0@, members@[i].1@)) =~= seq![
        ("id"@, JsonView::Number(crate::text::decimal(id as nat))),
        ("method"@, JsonView::Str(method@)),
        ("params"@, pv),
    ]);
    (m, id + 1)
}

/// Whether `v` holds the text `s`.
fn holds_text(v: &Vec<String>, s: &str) -> (r: bool)
    ensures
        r == views(v@).contains(s@),
{
    let n = v.len();
    let mut i: usize = 0;
    while i < n
        invariant
            n == v@.len(),
            i <= n,
            forall|k: int| 0 <= k < i ==> v@[k]@ != s@,
        decreases n - i,
    {
        if str_eq(v[i].as_str(), s) {
            assert(views(v@)[i as int] == s@);
            return true;
        }
        i = i + 1;
    }
    assert forall|k: int| 0 <= k < views(v@).len() implies views(v@)[k] != s@ by {
        assert(v@[k]@ != s@);
    }
    false
}

/// The model list after a page: each model of the page not listed yet is
/// added, in page order.
pub open spec fn merged_models(models: Seq<Seq<char>>, page: Seq<Seq<char>>) -> Seq<Seq<char>>
    decreases page.len(),
{
    if page.len() == 0 {
        models
    } else {
        let m = merged_models(models, page.drop_last());
        if m.contains(page.last()) {
            m
        } else {
            m.push(page.last())
        }
    }
}

/// Take a page of the model catalog (models by their ids): unseen models
/// join the list in order, and the next page's cursor is returned to be
/// requested, and remembered, unless it was requested before.
pub fn merge_model_page(
    models: &mut Vec<String>,
    cursors: &mut Vec<String>,
    page: Vec<String>,
    next: Option<String>,
) -> (r: Option<String>)
    ensures
        views(final(models)@) == merged_models(views(old(models)@), views(page@)),
        match next {
            Some(c) => if views(old(cursors)@).contains(c@) {
                r is None && final(cursors)@ == old(cursors)@
            } else {
                r == Some(c) && final(cursors)@ == old(cursors)@.push(c)
            },
            None => r is None && final(cursors)@ == old(cursors)@,
        },
{
    let ghost start = views(models@);
    let n = page.len();
    let mut i: usize = 0;
    while i < n
        invariant
            n == page@.len(),
            i <= n,
            views(models@) == merged_models(start, views(page@).take(i as int)),
        decreases n - i,
    {
        assert(views(page@).take(i + 1).drop_last() =~= views(page@).take(i as int));
        assert(views(page@).take(i + 1).last() == page@[i as int]@);
        if !holds_text(models, page[i].as_str()) {
            let ghost before = models@;
            models.push(page[i].clone());
            assert(views(models@) =~= views(before).push(page@[i as int]@));
        }
        i = i + 1;
    }
    assert(views(page@).take(n as int) =~= views(page@));
    match next {
        Some(c) => {
            if holds_text(cursors, c.as_str()) {
                None
            } else {
                cursors.push(c.clone());
                Some(c)
            }
        },
        None => None,
    }
}

/// What a successful `account/read` leads to.
#[derive(Debug)]
pub struct AccountOutcome {
    /// Signed in.
    pub account: bool,
    /// The new status line, when no turn runs.
    pub status: Option<&'static str>,
    /// The model catalog is to be requested now (once per connection).
    pub request_models: bool,
}

/// What a successful `account/read` leads to, given whether it names an
/// account: "Ready" or "Sign in to Codex" unless a turn runs, and the model
/// catalog is requested once when signed in.
pub fn account_read(signed_in: bool, busy: bool, models_requested: bool) -> (r: AccountOutcome)
    ensures
        r.account == signed_in,
        busy ==> r.status is None,
        !busy ==> (r.status matches Some(s) && s@ == (if signed_in {
            "Ready"@
        } else {
            "Sign in to Codex"@
        })),
        r.request_models == (signed_in && !models_requested),
{
    AccountOutcome {
        account: signed_in,
        status: if busy {
            None
        } else if signed_in {
            Some("Ready")
        } else {
            Some("Sign in to Codex")
        },
        request_models: signed_in && !models_requested,
    }
}

/// What a `thread/start` or `turn/start` result leads to.
#[derive(Debug)]
pub enum StartOutcome {
    /// The thread (or turn) with this id started.
    Started(String),
    /// The running turn fails with this message.
    Fail(String),
    /// Nothing: no id, and no turn waits for it.
    Nothing,
}

/// Plain-value model of a [`StartOutcome`].
pub enum StartView {
    Started(Seq<char>),
    Fail(Seq<char>),
    Nothing,
}

impl View for StartOutcome {
    type V = StartView;

    open spec fn view(&self) -> StartView {
        match self {
            StartOutcome::Started(s) => StartView::Started(s@),
            StartOutcome::Fail(m) => StartView::Fail(m@),
            StartOutcome::Nothing => StartView::Nothing,
        }
    }
}

/// The outcome of a start result for `kind` ("thread" or "turn"): the id at
/// `kind`.id, else a failure of the running turn, else nothing.
pub open spec fn start_outcome_of(kind: Seq<char>, result: JsonView, busy: bool) -> StartView {
    match text_at(at(result, kind), "id"@) {
        Some(id) => StartView::Started(id),
        None => if busy {
            StartView::Fail("Codex returned no "@ + kind + " id"@)
        } else {
            StartView::Nothing
        },
    }
}

fn start_outcome(kind: &str, result: &Json, busy: bool) -> (r: StartOutcome)
    ensures
        r@ == start_outcome_of(kind@, result@, busy),
{
    match field(field(Some(result), kind), "id") {
        Some(v) => match text_of(v) {
            Some(id) => return StartOutcome::Started(String::from_str(id)),
            None => {},
        },
        None => {},
    }
    if busy {
        StartOutcome::Fail(String::from_str("Codex returned no ").concat(kind).concat(" id"))
    } else {
        StartOutcome::Nothing
    }
}

/// What a `thread/start` result leads to: the new thread starts the
/// prepared turn; without a thread id a running turn fails.
pub fn thread_started(result: &Json, busy: bool) -> (r: StartOutcome)
    ensures
        r@ == start_outcome_of("thread"@, result@, busy),
{
    start_outcome("thread", result, busy)
}

/// What a `turn/start` result leads to: the turn id starts the turn in the
/// transcript; without one a running turn fails.
pub fn turn_started(result: &Json, busy: bool) -> (r: StartOutcome)
    ensures
        r@ == start_outcome_of("turn"@, result@, busy),
{
    start_outcome("turn", result, busy)
}

/// After a `turn/start` result: a turn that was stopped meanwhile (the
/// transcript is no longer busy) is interrupted on the server, with these
/// parameters; otherwise the status shows the turn working (`None`).
pub open spec fn interrupt_of(busy: bool, thread: Option<Seq<char>>, turn: Option<Seq<char>>) -> Option<JsonView> {
    if busy {
        None
    } else {
        match (thread, turn) {
            (Some(th), Some(tu)) => Some(
                object(seq![("threadId"@, JsonView::Str(th)), ("turnId"@, JsonView::Str(tu))]),
            ),
            _ => None,
        }
    }
}

/// The interrupt to send after a `turn/start` result (see [`interrupt_of`]).
pub fn turn_start_interrupt(busy: bool, thread: Option<&str>, turn: Option<&str>) -> (r: Option<Json>)
    ensures
        match r {
            Some(p) => interrupt_of(busy, opt_text(thread), opt_text(turn)) == Some(p@),
            None => interrupt_of(busy, opt_text(thread), opt_text(turn)) is None,
        },
{
    if busy {
        return None;
    }
    match (thread, turn) {
        (Some(th), Some(tu)) => Some(
            crate::json::object2(
                "threadId",
                Json::Str(String::from_str(th)),
                "turnId",
                Json::Str(String::from_str(tu)),
            ),
        ),
        _ => None,
    }
}

/// The view of an optional string.
pub open spec fn opt_text(s: Option<&str>) -> Option<Seq<char>> {
    match s {
        Some(t) => Some(t@),
        None => None,
    }
}

/// The message of an `error` notification and whether the server retries.
pub fn connection_error(params: &Json) -> (r: (String, bool))
    ensures
        r.0@ == (match text_at(at(params@, "error"@), "message"@) {
            Some(m) => m,
            None => "Assistant connection error"@,
        }),
        r.1 == (at(params@, "willRetry"@) == JsonView::Bool(true)),
{
    let message = match field(field(Some(params), "error"), "message") {
        Some(v) => match text_of(v) {
            Some(s) => String::from_str(s),
            None => String::from_str("Assistant connection error"),
        },
        None => String::from_str("Assistant connection error"),
    };
    let retry = match field(Some(params), "willRetry") {
        Some(Json::Bool(b)) => *b,
        _ => false,
    };
    (message, retry)
}

/// What a failed request leads to.
#[derive(Debug)]
pub enum FailedRequest {
    /// A resume failed: start a new thread with the saved context.
    ResumeFallback,
    /// The connection is unusable: disconnect with this message.
    Disconnect(String),
    /// The model list is unavailable: warn, and use the default model.
    ModelListWarning(String),
    /// The turn fails with this message.
    Fail(String),
    /// Nothing to do: an interrupt that could not be delivered.
    Ignore,
}

/// Plain-value model of a [`FailedRequest`].
pub enum FailedView {
    ResumeFallback,
    Disconnect(Seq<char>),
    ModelListWarning(Seq<char>),
    Fail(Seq<char>),
    Ignore,
}

impl View for FailedRequest {
    type V = FailedView;

    open spec fn view(&self) -> FailedView {
        match self {
            FailedRequest::ResumeFallback => FailedView::ResumeFallback,
            FailedRequest::Disconnect(m) => FailedView::Disconnect(m@),
            FailedRequest::ModelListWarning(m) => FailedView::ModelListWarning(m@),
            FailedRequest::Fail(m) => FailedView::Fail(m@),
            FailedRequest::Ignore => FailedView::Ignore,
        }
    }
}

/// What the failure (`error`) of a pending request of `method` leads to.
pub open spec fn failed_request_of(method: Seq<char>, error: JsonView) -> FailedView {
    let message = match text_at(error, "message"@) {
        Some(m) => m,
        None => "Codex request failed"@,
    };
    if method == "thread/resume"@ {
        FailedView::ResumeFallback
    } else if method == "initialize"@ || method == "account/read"@ {
        FailedView::Disconnect(message)
    } else if method == "model/list"@ {
        FailedView::ModelListWarning("Model list unavailable: "@ + message + " · using Codex default"@)
    } else if method == "turn/interrupt"@ {
        FailedView::Ignore
    } else {
        FailedView::Fail(message)
    }
}

/// What the failure of a pending request leads to.
pub fn failed_request(method: &str, error: &Json) -> (r: FailedRequest)
    ensures
        r@ == failed_request_of(method@, error@),
{
    let message = match field(Some(error), "message") {
        Some(v) => match text_of(v) {
            Some(s) => String::from_str(s),
            None => String::from_str("Codex request failed"),
        },
        None => String::from_str("Codex request failed"),
    };
    if str_eq(method, "thread/resume") {
        FailedRequest::ResumeFallback
    } else if str_eq(method, "initialize") || str_eq(method, "account/read") {
        FailedRequest::Disconnect(message)
    } else if str_eq(method, "model/list") {
        FailedRequest::ModelListWarning(
            String::from_str("Model list unavailable: ").concat(message.as_str()).concat(
                " · using Codex default",
            ),
        )
    } else if str_eq(method, "turn/interrupt") {
        FailedRequest::Ignore
    } else {
        FailedRequest::Fail(message)
    }
}

/// The message of a failed request's error, or a generic one.
pub open spec fn message_or_default(error: JsonView) -> Seq<char> {
    match text_at(error, "message"@) {
        Some(m) => m,
        None => "Codex request failed"@,
    }
}

/// A failed request reports the server's message (or "Codex request
/// failed" without one): a failed resume falls back to a new thread, a
/// failed handshake or account read disconnects with the message, a failed
/// model list only warns with it, an undeliverable interrupt is ignored,
/// and a failed thread or turn start fails the turn with it.
pub proof fn law_failures_report_the_server_message(method: Seq<char>, error: JsonView)
    ensures
        method == "thread/resume"@ ==> failed_request_of(method, error) == FailedView::ResumeFallback,
        method == "turn/interrupt"@ ==> failed_request_of(method, error) == FailedView::Ignore,
        (method == "initialize"@ || method == "account/read"@) ==> failed_request_of(method, error)
            == FailedView::Disconnect(message_or_default(error)),
        method == "model/list"@ ==> failed_request_of(method, error) == FailedView::ModelListWarning(
            "Model list unavailable: "@ + message_or_default(error) + " · using Codex default"@,
        ),
        (method == "turn/start"@ || method == "thread/start"@) ==> failed_request_of(method, error)
            == FailedView::Fail(message_or_default(error)),
{
    reveal_strlit("thread/resume");
    reveal_strlit("turn/interrupt");
    reveal_strlit("initialize");
    reveal_strlit("account/read");
    reveal_strlit("model/list");
    reveal_strlit("turn/start");
    reveal_strlit("thread/start");
    assert("thread/resume"@[7] != "thread/start"@[7]);
    assert("turn/interrupt"@[5] != "turn/start"@[5]);
    assert("turn/start"@[0] != "initialize"@[0]);
    assert("turn/start"@[0] != "model/list"@[0]);
    assert("initialize"@[0] != "model/list"@[0]);
    assert("thread/start"@[0] != "account/read"@[0]);
    assert("thread/start"@.len() != "thread/resume"@.len());
}

/// The reply to a server request that this client does not serve.
pub open spec fn unsupported_reply(id: JsonView) -> JsonView {
    object(
        seq![
            ("error"@, object(
                seq![
                    ("code"@, JsonView::Number("-32601"@)),
                    ("message"@, JsonView::Str(
                        "This client supports rexafs analysis tools only. Ask the user in your reply instead."@,
                    )),
                ],
            )),
            ("id"@, id),
        ],
    )
}

/// The reply to a server request that this client does not serve.
pub fn unsupported_request_reply(id: Json) -> (r: Json)
    ensures
        r@ == unsupported_reply(id@),
{
    let error = crate::json::object2(
        "code",
        Json::Number(String::from_str("-32601")),
        "message",
        Json::Str(
            String::from_str(
                "This client supports rexafs analysis tools only. Ask the user in your reply instead.",
            ),
        ),
    );
    crate::json::object2("error", error, "id", id)
}

/// The thread a `thread/resume` result resumes: none when the thread is
/// still active elsewhere or the result names no thread (the caller then
/// starts a new thread with the saved context).
pub open spec fn resumed_thread_of(result: JsonView) -> Option<Seq<char>> {
    if at(at(at(result, "thread"@), "status"@), "type"@) == JsonView::Str("active"@) {
        None
    } else {
        text_at(at(result, "thread"@), "id"@)
    }
}

/// The thread a `thread/resume` result resumes.
pub fn resumed_thread(result: &Json) -> (r: Option<String>)
    ensures
        match r {
            Some(t) => resumed_thread_of(result@) == Some(t@),
            None => resumed_thread_of(result@) is None,
        },
{
    let thread = field(Some(result), "thread");
    let active = match field(field(thread, "status"), "type") {
        Some(Json::Str(s)) => str_eq(s.as_str(), "active"),
        _ => false,
    };
    if active {
        return None;
    }
    match field(thread, "id") {
        Some(v) => opt_string(text_of(v)),
        None => None,
    }
}

} // verus!
