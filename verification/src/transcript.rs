//! Pure transcript reducer. Protocol IDs are scoped to the current turn.
//! Times are milliseconds on a monotonic clock chosen by the caller.
use vstd::prelude::*;
use crate::receipts::{Receipt, ReceiptView, StudioStatus, receipt_text, refreshed, same_receipt};
use crate::text::{decimal, decimal_text, join, join_seq, str_eq, views};

verus! {



/// Progress of a tool call shown in the transcript.
#[derive(Clone, Debug, PartialEq)]
pub enum ActivityState {
    Running,
    Done,
    Stopped,
    Failed(String),
}

/// A status line of the transcript. `Waiting::started` is in milliseconds.
#[derive(Clone, Debug, PartialEq)]
pub enum Status {
    Preparing,
    Waiting { started: u64 },
    Stopped,
    Error(String),
    Reconnected,
}

/// One transcript entry.
#[derive(Clone, Debug, PartialEq)]
pub enum Entry {
    /// The user's message and whether it was sent in edit mode.
    User(String, bool),
    Assistant { id: String, text: String },
    Thinking { id: String, text: String },
    Activity { id: String, label: String, tool: String, state: ActivityState },
    Receipt(Receipt),
    Status(Status),
}

/// Which streamed item an update belongs to.
#[derive(Clone, Copy, Debug, PartialEq, Eq, Structural)]
pub enum ItemKind {
    Assistant,
    Thinking,
}

/// An update of a streamed item.
#[derive(Debug)]
pub enum Update {
    Started,
    Delta(String),
    Completed(Option<String>),
}

/// Inputs of the reducer.
#[derive(Debug)]
pub enum Event {
    Send(String, bool),
    TurnStarted(String),
    TurnCompleted { turn: String, error: Option<String> },
    Item { turn: String, id: String, kind: ItemKind, update: Update },
    ToolStarted { turn: String, id: String, label: String, tool: String },
    ToolFinished { turn: String, id: String, error: Option<String> },
    Receipt(Receipt),
    Failed(String),
    StopRequested,
    StopTimeout,
    AnalysisClosed,
    Disconnected,
    Reconnected,
}

pub enum ActivityView {
    Running,
    Done,
    Stopped,
    Failed(Seq<char>),
}

pub enum StatusView {
    Preparing,
    Waiting { started: u64 },
    Stopped,
    Error(Seq<char>),
    Reconnected,
}

pub enum EntryView {
    User(Seq<char>, bool),
    Assistant { id: Seq<char>, text: Seq<char> },
    Thinking { id: Seq<char>, text: Seq<char> },
    Activity { id: Seq<char>, label: Seq<char>, tool: Seq<char>, state: ActivityView },
    Receipt(ReceiptView),
    Status(StatusView),
}

pub enum UpdateView {
    Started,
    Delta(Seq<char>),
    Completed(Option<Seq<char>>),
}

pub enum EventView {
    Send(Seq<char>, bool),
    TurnStarted(Seq<char>),
    TurnCompleted { turn: Seq<char>, error: Option<Seq<char>> },
    Item { turn: Seq<char>, id: Seq<char>, kind: ItemKind, update: UpdateView },
    ToolStarted { turn: Seq<char>, id: Seq<char>, label: Seq<char>, tool: Seq<char> },
    ToolFinished { turn: Seq<char>, id: Seq<char>, error: Option<Seq<char>> },
    Receipt(ReceiptView),
    Failed(Seq<char>),
    StopRequested,
    StopTimeout,
    AnalysisClosed,
    Disconnected,
    Reconnected,
}

pub open spec fn opt_view(o: Option<String>) -> Option<Seq<char>> {
    match o {
        Some(s) => Some(s@),
        None => None,
    }
}

impl View for ActivityState {
    type V = ActivityView;

    open spec fn view(&self) -> ActivityView {
        match self {
            ActivityState::Running => ActivityView::Running,
            ActivityState::Done => ActivityView::Done,
            ActivityState::Stopped => ActivityView::Stopped,
            ActivityState::Failed(e) => ActivityView::Failed(e@),
        }
    }
}

impl View for Status {
    type V = StatusView;

    open spec fn view(&self) -> StatusView {
        match self {
            Status::Preparing => StatusView::Preparing,
            Status::Waiting { started } => StatusView::Waiting { started: *started },
            Status::Stopped => StatusView::Stopped,
            Status::Error(e) => StatusView::Error(e@),
            Status::Reconnected => StatusView::Reconnected,
        }
    }
}

impl View for Entry {
    type V = EntryView;

    open spec fn view(&self) -> EntryView {
        match self {
            Entry::User(t, e) => EntryView::User(t@, *e),
            Entry::Assistant { id, text } => EntryView::Assistant { id: id@, text: text@ },
            Entry::Thinking { id, text } => EntryView::Thinking { id: id@, text: text@ },
            Entry::Activity { id, label, tool, state } => EntryView::Activity {
                id: id@,
                label: label@,
                tool: tool@,
                state: state@,
            },
            Entry::Receipt(r) => EntryView::Receipt(r@),
            Entry::Status(s) => EntryView::Status(s@),
        }
    }
}

impl View for Update {
    type V = UpdateView;

    open spec fn view(&self) -> UpdateView {
        match self {
            Update::Started => UpdateView::Started,
            Update::Delta(d) => UpdateView::Delta(d@),
            Update::Completed(v) => UpdateView::Completed(opt_view(*v)),
        }
    }
}

impl View for Event {
    type V = EventView;

    open spec fn view(&self) -> EventView {
        match self {
            Event::Send(t, e) => EventView::Send(t@, *e),
            Event::TurnStarted(t) => EventView::TurnStarted(t@),
            Event::TurnCompleted { turn, error } => EventView::TurnCompleted {
                turn: turn@,
                error: opt_view(*error),
            },
            Event::Item { turn, id, kind, update } => EventView::Item {
                turn: turn@,
                id: id@,
                kind: *kind,
                update: update@,
            },
            Event::ToolStarted { turn, id, label, tool } => EventView::ToolStarted {
                turn: turn@,
                id: id@,
                label: label@,
                tool: tool@,
            },
            Event::ToolFinished { turn, id, error } => EventView::ToolFinished {
                turn: turn@,
                id: id@,
                error: opt_view(*error),
            },
            Event::Receipt(r) => EventView::Receipt(r@),
            Event::Failed(e) => EventView::Failed(e@),
            Event::StopRequested => EventView::StopRequested,
            Event::StopTimeout => EventView::StopTimeout,
            Event::AnalysisClosed => EventView::AnalysisClosed,
            Event::Disconnected => EventView::Disconnected,
            Event::Reconnected => EventView::Reconnected,
        }
    }
}

pub open spec fn entry_views(es: Seq<Entry>) -> Seq<EntryView> {
    es.map_values(|e: Entry| e@)
}

/// The conversation and the protocol state of the current turn.
#[derive(Debug)]
pub struct Transcript {
    pub entries: Vec<Entry>,
    pub turn: Option<String>,
    pub busy: bool,
    pub stop_pending: bool,
    /// Index of the current turn's first entry.
    pub start: usize,
    /// A sent message awaits the server's turn identifier.
    pub awaiting_ack: bool,
    pub disconnected: bool,
    /// Advances on every change the reducer makes.
    pub revision: u64,
}

/// Plain-value model of a [`Transcript`]. `start` is the index of the
/// current turn's first entry.
pub struct TranscriptView {
    pub entries: Seq<EntryView>,
    pub turn: Option<Seq<char>>,
    pub busy: bool,
    pub stop_pending: bool,
    pub start: int,
    pub awaiting_ack: bool,
    pub disconnected: bool,
    pub revision: u64,
}

impl View for Transcript {
    type V = TranscriptView;

    open spec fn view(&self) -> TranscriptView {
        TranscriptView {
            entries: entry_views(self.entries@),
            turn: opt_view(self.turn),
            busy: self.busy,
            stop_pending: self.stop_pending,
            start: self.start as int,
            awaiting_ack: self.awaiting_ack,
            disconnected: self.disconnected,
            revision: self.revision,
        }
    }
}

/// A status that only stands while a response is awaited.
pub open spec fn is_waiting(e: EntryView) -> bool {
    e matches EntryView::Status(StatusView::Preparing) || e matches EntryView::Status(
        StatusView::Waiting { .. },
    )
}

pub open spec fn is_running(e: EntryView) -> bool {
    e matches EntryView::Activity { state: ActivityView::Running, .. }
}

/// Entries that outlive the wait for a response.
pub open spec fn kept() -> spec_fn(EntryView) -> bool {
    |e: EntryView| !is_waiting(e)
}

/// The entries without waiting statuses, in order.
pub open spec fn cleared(es: Seq<EntryView>) -> Seq<EntryView> {
    es.filter(kept())
}

pub open spec fn has_waiting(es: Seq<EntryView>) -> bool {
    exists|i: int| 0 <= i < es.len() && is_waiting(#[trigger] es[i])
}

/// A running activity takes state `to`; other entries stay.
pub open spec fn settle_entry(e: EntryView, to: ActivityView) -> EntryView {
    match e {
        EntryView::Activity { id, label, tool, state: ActivityView::Running } => EntryView::Activity {
            id,
            label,
            tool,
            state: to,
        },
        _ => e,
    }
}

/// Running activities from `start` on take state `to`.
pub open spec fn settle_running(es: Seq<EntryView>, start: int, to: ActivityView) -> Seq<EntryView> {
    Seq::new(es.len(), |i: int| if i >= start { settle_entry(es[i], to) } else { es[i] })
}

pub open spec fn turn_ended() -> Seq<char> {
    "Turn ended before the tool responded"@
}

pub open spec fn connection_lost() -> Seq<char> {
    "Connection lost"@
}

impl TranscriptView {
    /// Internal consistency kept by the reducer: the turn start is within the
    /// entries; waiting statuses belong to a busy current turn; running tools
    /// of the current turn exist only while the turn is busy or stopping.
    pub open spec fn wf(self) -> bool {
        &&& 0 <= self.start <= self.entries.len()
        &&& forall|i: int| 0 <= i < self.entries.len() && is_waiting(#[trigger] self.entries[i]) ==> self.busy && i >= self.start
        &&& (!self.busy && !self.stop_pending) ==> forall|i: int|
            self.start <= i < self.entries.len() ==> !is_running(#[trigger] self.entries[i])
    }

    /// Events of `turn` are accepted while that turn is busy.
    pub open spec fn accepts(self, turn: Seq<char>) -> bool {
        self.busy && self.turn == Some(turn)
    }

    /// End the turn: drop waiting statuses, fail tools still running, and
    /// append `status`, if any.
    pub open spec fn finish(self, status: Option<StatusView>) -> TranscriptView {
        let es = settle_running(cleared(self.entries), self.start, ActivityView::Failed(turn_ended()));
        TranscriptView {
            entries: match status {
                Some(s) => es.push(EntryView::Status(s)),
                None => es,
            },
            busy: false,
            stop_pending: false,
            ..self
        }
    }

    /// The first `kind` item called `id` at or after index `i`.
    pub open spec fn find_item(es: Seq<EntryView>, i: int, kind: ItemKind, id: Seq<char>) -> Option<int>
        decreases es.len() - i,
    {
        if i < 0 || i >= es.len() {
            None
        } else if is_item(es[i], kind, id) {
            Some(i)
        } else {
            TranscriptView::find_item(es, i + 1, kind, id)
        }
    }

    /// The first activity called `id` at or after index `i`.
    pub open spec fn find_activity(es: Seq<EntryView>, i: int, id: Seq<char>) -> Option<int>
        decreases es.len() - i,
    {
        if i < 0 || i >= es.len() {
            None
        } else if es[i] matches EntryView::Activity { id: key, .. } && key == id {
            Some(i)
        } else {
            TranscriptView::find_activity(es, i + 1, id)
        }
    }

    /// Item update: stale turns are ignored; text and completion clear the
    /// waiting statuses; an item is created on first sight and otherwise
    /// extended or replaced. Repeated or empty updates report only whether
    /// waiting statuses were removed.
    pub open spec fn item_step(self, turn: Seq<char>, id: Seq<char>, kind: ItemKind, update: UpdateView) -> (TranscriptView, bool) {
        if !self.accepts(turn) {
            (self, false)
        } else {
            let flag = shows_output(update) && has_waiting(self.entries);
            let es = if flag {
                cleared(self.entries)
            } else {
                self.entries
            };
            let t1 = TranscriptView { entries: es, ..self };
            match TranscriptView::find_item(es, self.start, kind, id) {
                Some(k) => {
                    let cur = item_text(es[k]);
                    match update {
                        UpdateView::Delta(d) => if d.len() == 0 {
                            (t1, flag)
                        } else {
                            (TranscriptView { entries: es.update(k, new_item(kind, id, cur + d)), ..self }, true)
                        },
                        UpdateView::Completed(Some(v)) => if cur == v {
                            (t1, flag)
                        } else {
                            (TranscriptView { entries: es.update(k, new_item(kind, id, v)), ..self }, true)
                        },
                        _ => (t1, flag),
                    }
                },
                None => {
                    let text = match update {
                        UpdateView::Delta(d) => d,
                        UpdateView::Completed(Some(v)) => v,
                        _ => seq![],
                    };
                    (TranscriptView { entries: es.push(new_item(kind, id, text)), ..self }, true)
                },
            }
        }
    }

    /// The reducer: the state after `event` at time `now`, and whether
    /// anything changed.
    pub open spec fn step(self, event: EventView, now: u64) -> (TranscriptView, bool) {
        match event {
            EventView::Receipt(r) => (
                TranscriptView { entries: self.entries.push(EntryView::Receipt(r)), ..self },
                true,
            ),
            EventView::Send(text, edit) => if self.busy || self.stop_pending {
                (self, false)
            } else {
                (
                    TranscriptView {
                        start: self.entries.len() as int,
                        turn: None,
                        busy: true,
                        awaiting_ack: true,
                        entries: self.entries.push(EntryView::User(text, edit)).push(
                            EntryView::Status(StatusView::Preparing),
                        ),
                        ..self
                    },
                    true,
                )
            },
            EventView::TurnStarted(turn) => if !self.awaiting_ack {
                (self, false)
            } else {
                (
                    TranscriptView {
                        awaiting_ack: false,
                        turn: Some(turn),
                        entries: if self.busy {
                            cleared(self.entries).push(
                                EntryView::Status(StatusView::Waiting { started: now }),
                            )
                        } else {
                            self.entries
                        },
                        ..self
                    },
                    true,
                )
            },
            EventView::TurnCompleted { turn, error } => if self.turn != Some(turn) || !(self.busy
                || self.stop_pending) {
                (self, false)
            } else {
                let status = match error {
                    Some(e) => Some(StatusView::Error(e)),
                    None => if self.stop_pending {
                        Some(StatusView::Stopped)
                    } else {
                        None
                    },
                };
                (self.finish(status), true)
            },
            EventView::Item { turn, id, kind, update } => self.item_step(turn, id, kind, update),
            EventView::ToolStarted { turn, id, label, tool } => if !self.accepts(turn)
                || TranscriptView::find_activity(self.entries, self.start, id) is Some {
                (self, false)
            } else {
                (
                    TranscriptView {
                        entries: cleared(self.entries).push(
                            EntryView::Activity { id, label, tool, state: ActivityView::Running },
                        ),
                        ..self
                    },
                    true,
                )
            },
            EventView::ToolFinished { turn, id, error } => if !self.accepts(turn) {
                (self, false)
            } else {
                match TranscriptView::find_activity(self.entries, self.start, id) {
                    None => (self, false),
                    Some(k) => if !is_running(self.entries[k]) {
                        (self, false)
                    } else {
                        let state = match error {
                            Some(e) => ActivityView::Failed(e),
                            None => ActivityView::Done,
                        };
                        (
                            TranscriptView {
                                entries: self.entries.update(
                                    k,
                                    match self.entries[k] {
                                        EntryView::Activity { id, label, tool, .. } => EntryView::Activity { id, label, tool, state },
                                        other => other,
                                    },
                                ),
                                ..self
                            },
                            true,
                        )
                    },
                }
            },
            EventView::StopRequested => if !self.busy {
                (self, false)
            } else {
                (
                    TranscriptView {
                        busy: false,
                        stop_pending: true,
                        entries: cleared(self.entries),
                        ..self
                    },
                    true,
                )
            },
            EventView::StopTimeout => if !self.stop_pending {
                (self, false)
            } else {
                (self.finish(Some(StatusView::Stopped)), true)
            },
            EventView::Failed(e) => (
                TranscriptView { awaiting_ack: false, ..self }.finish(Some(StatusView::Error(e))),
                true,
            ),
            EventView::AnalysisClosed => self.close(true),
            EventView::Disconnected => self.close(false),
            EventView::Reconnected => if !self.disconnected {
                (self, false)
            } else {
                (
                    TranscriptView {
                        disconnected: false,
                        entries: self.entries.push(EntryView::Status(StatusView::Reconnected)),
                        ..self
                    },
                    true,
                )
            },
        }
    }

    /// Closing the analysis window (`intentional`) or losing the connection
    /// ends any turn: tools still running stop (on close) or fail, and a
    /// busy or stopping turn ends as Stopped (on close) or with
    /// "Connection lost".
    pub open spec fn close(self, intentional: bool) -> (TranscriptView, bool) {
        let changed = !self.disconnected || self.busy || self.stop_pending || self.awaiting_ack
            || self.turn is Some;
        let es = if intentional {
            settle_running(self.entries, self.start, ActivityView::Stopped)
        } else {
            self.entries
        };
        let status = if self.busy || self.stop_pending {
            Some(
                if intentional {
                    StatusView::Stopped
                } else {
                    StatusView::Error(connection_lost())
                },
            )
        } else {
            None
        };
        let ended = TranscriptView {
            disconnected: true,
            awaiting_ack: false,
            entries: es,
            ..self
        }.finish(status);
        (TranscriptView { turn: None, ..ended }, changed)
    }
}

/// "Waiting for response · {secs} s", or "Still waiting · …" from 15 s on.
pub open spec fn waiting_text(secs: u64) -> Seq<char> {
    (if secs >= 15 {
        "Still waiting"@
    } else {
        "Waiting for response"@
    }) + " · "@ + decimal(secs as nat) + " s"@
}

/// Whole seconds from `started` to `now` (milliseconds), zero if `now` is earlier.
pub open spec fn elapsed_secs(started: u64, now: u64) -> u64 {
    if now >= started {
        ((now - started) / 1000) as u64
    } else {
        0
    }
}

pub open spec fn activity_suffix(state: ActivityView) -> Seq<char> {
    match state {
        ActivityView::Running => seq![],
        ActivityView::Done => " · done"@,
        ActivityView::Stopped => " · stopped"@,
        ActivityView::Failed(e) => " · failed: "@ + e,
    }
}

pub open spec fn status_text(status: StatusView, now: u64) -> Seq<char> {
    match status {
        StatusView::Preparing => "Preparing…"@,
        StatusView::Waiting { started } => waiting_text(elapsed_secs(started, now)),
        StatusView::Stopped => "Stopped"@,
        StatusView::Error(e) => "Error: "@ + e,
        StatusView::Reconnected => "Connection restored. The next message starts a new conversation."@,
    }
}

/// An entry as plain text at time `now`.
pub open spec fn entry_text(e: EntryView, now: u64) -> Seq<char> {
    match e {
        EntryView::User(text, _) => text,
        EntryView::Assistant { text, .. } => text,
        EntryView::Thinking { text, .. } => text,
        EntryView::Receipt(r) => receipt_text(r),
        EntryView::Activity { label, state, .. } => label + activity_suffix(state),
        EntryView::Status(s) => status_text(s, now),
    }
}

/// The heading of an entry in a copied conversation.
pub open spec fn role_text(e: EntryView) -> Seq<char> {
    match e {
        EntryView::User(_, true) => "You · Edit"@,
        EntryView::User(_, false) => "You · Review"@,
        EntryView::Receipt(_) => "Receipt"@,
        EntryView::Assistant { .. } => "Assistant"@,
        EntryView::Thinking { .. } => "Thinking"@,
        EntryView::Activity { .. } => "Activity"@,
        EntryView::Status(_) => "Status"@,
    }
}

/// One entry of a copied conversation: a Markdown heading and the text.
pub open spec fn section_text(e: EntryView, now: u64) -> Seq<char> {
    "## "@ + role_text(e) + "\n\n"@ + entry_text(e, now) + "\n"@
}

/// The whole conversation as Markdown at time `now`.
pub open spec fn conversation_text(es: Seq<EntryView>, now: u64) -> Seq<char> {
    join_seq(es.map_values(|e: EntryView| section_text(e, now)), "\n"@)
}

/// Text or a completion ends the wait for a response.
pub open spec fn shows_output(update: UpdateView) -> bool {
    match update {
        UpdateView::Delta(d) => d.len() > 0,
        UpdateView::Completed(_) => true,
        UpdateView::Started => false,
    }
}

/// An item of `kind` with identifier `id`.
pub open spec fn is_item(e: EntryView, kind: ItemKind, id: Seq<char>) -> bool {
    match (kind, e) {
        (ItemKind::Assistant, EntryView::Assistant { id: key, .. }) => key == id,
        (ItemKind::Thinking, EntryView::Thinking { id: key, .. }) => key == id,
        _ => false,
    }
}

pub open spec fn item_text(e: EntryView) -> Seq<char> {
    match e {
        EntryView::Assistant { text, .. } => text,
        EntryView::Thinking { text, .. } => text,
        _ => seq![],
    }
}

pub open spec fn new_item(kind: ItemKind, id: Seq<char>, text: Seq<char>) -> EntryView {
    match kind {
        ItemKind::Assistant => EntryView::Assistant { id, text },
        ItemKind::Thinking => EntryView::Thinking { id, text },
    }
}


/// Removing waiting statuses keeps the entries before `start` when none of
/// them is waiting, so the turn start stays within the entries.
pub proof fn lemma_cleared_keeps_prefix(es: Seq<EntryView>, start: int)
    requires
        0 <= start <= es.len(),
        forall|i: int| 0 <= i < start ==> !is_waiting(#[trigger] es[i]),
    ensures
        cleared(es).len() >= start,
        forall|i: int| 0 <= i < cleared(es).len() ==> !is_waiting(#[trigger] cleared(es)[i]),
    decreases es.len(),
{
    reveal(Seq::filter);
    if es.len() > 0 {
        if start == es.len() {
            lemma_cleared_keeps_prefix(es.drop_last(), start - 1);
        } else {
            lemma_cleared_keeps_prefix(es.drop_last(), start);
        }
    }
    assert forall|i: int| 0 <= i < cleared(es).len() implies !is_waiting(#[trigger] cleared(es)[i]) by {
        es.lemma_filter_pred(kept(), i);
    }
}

impl Transcript {
    /// The model satisfies [`TranscriptView::wf`].
    pub open spec fn wf(&self) -> bool {
        self@.wf()
    }

    pub fn new() -> (r: Transcript)
        ensures
            r@ == TranscriptView::empty(),
            r.wf(),
    {
        let r = Transcript {
            entries: Vec::new(),
            turn: None,
            busy: false,
            stop_pending: false,
            start: 0,
            awaiting_ack: false,
            disconnected: false,
            revision: 0,
        };
        assert(r@.entries =~= seq![]);
        r
    }

    /// Whether events of `turn` are accepted now.
    pub fn accepts(&self, turn: &str) -> (r: bool)
        ensures
            r == self@.accepts(turn@),
    {
        self.busy && match &self.turn {
            Some(t) => str_eq(t.as_str(), turn),
            None => false,
        }
    }

    /// The revision, which advances on every change the reducer makes.
    pub fn revision(&self) -> (r: u64)
        ensures
            r == self@.revision,
    {
        self.revision
    }

    /// Remove waiting statuses; report whether any was removed.
    fn clear_waiting(&mut self) -> (r: bool)
        ensures
            final(self)@ == (TranscriptView { entries: cleared(old(self)@.entries), ..old(self)@ }),
            r == has_waiting(old(self)@.entries),
    {
        let ghost orig = entry_views(self.entries@);
        let n = self.entries.len();
        let mut i: usize = n;
        let mut removed = false;
        assert(orig.skip(n as int) =~= seq![]);
        assert(orig.take(n as int) =~= orig);
        while i > 0
            invariant
                orig.len() == n,
                i <= n,
                entry_views(self.entries@) == orig.take(i as int) + cleared(orig.skip(i as int)),
                removed == exists|j: int| i <= j < n && is_waiting(#[trigger] orig[j]),
                self.turn == old(self).turn,
                self.busy == old(self).busy,
                self.stop_pending == old(self).stop_pending,
                self.start == old(self).start,
                self.awaiting_ack == old(self).awaiting_ack,
                self.disconnected == old(self).disconnected,
                self.revision == old(self).revision,
            decreases i,
        {
            let k = i - 1;
            let ghost x = orig[k as int];
            assert(orig.skip(k as int) =~= seq![x] + orig.skip(i as int));
            assert(seq![x].filter(kept()) == (if kept()(x) { seq![x] } else { seq![] })) by {
                reveal_with_fuel(Seq::filter, 2);
                assert(seq![x].drop_last() =~= Seq::<EntryView>::empty());
            }
            proof {
                orig.skip(i as int).lemma_filter_prepend(x, kept());
            }
            assert(entry_views(self.entries@).len() == self.entries@.len());
            assert(self.entries@.len() > k);
            assert(entry_views(self.entries@)[k as int] == x);
            let w = match &self.entries[k] {
                Entry::Status(Status::Preparing) => true,
                Entry::Status(Status::Waiting { .. }) => true,
                _ => false,
            };
            if w {
                let ghost before = self.entries@;
                let ghost rest = cleared(orig.skip(i as int));
                self.entries.remove(k);
                assert(cleared(orig.skip(k as int)) == rest);
                assert(entry_views(self.entries@) =~= entry_views(before).remove(k as int));
                assert(entry_views(before) == orig.take(i as int) + rest);
                assert(entry_views(self.entries@) =~= orig.take(k as int) + rest);
                removed = true;
            } else {
                assert(entry_views(self.entries@) =~= orig.take(k as int) + cleared(orig.skip(k as int)));
            }
            i = k;
        }
        assert(orig.skip(0) =~= orig);
        assert(orig.take(0) =~= seq![]);
        assert(entry_views(self.entries@) =~= cleared(orig));
        removed
    }
}

impl Transcript {
    /// Running activities of the current turn become Stopped (`stopped`) or
    /// fail because the turn ended.
    fn settle_running(&mut self, stopped: bool)
        requires
            old(self).start <= old(self).entries@.len(),
        ensures
            final(self)@ == (TranscriptView {
                entries: settle_running(
                    old(self)@.entries,
                    old(self)@.start,
                    if stopped {
                        ActivityView::Stopped
                    } else {
                        ActivityView::Failed(turn_ended())
                    },
                ),
                ..old(self)@
            }),
    {
        let ghost orig = entry_views(self.entries@);
        let ghost to = if stopped {
            ActivityView::Stopped
        } else {
            ActivityView::Failed(turn_ended())
        };
        let n = self.entries.len();
        let mut i: usize = self.start;
        while i < n
            invariant
                orig.len() == n,
                orig == entry_views(old(self).entries@),
                to == (if stopped {
                    ActivityView::Stopped
                } else {
                    ActivityView::Failed(turn_ended())
                }),
                self.entries@.len() == n,
                old(self).start <= i <= n,
                forall|j: int|
                    0 <= j < n ==> #[trigger] entry_views(self.entries@)[j] == if old(self).start
                        <= j < i {
                        settle_entry(orig[j], to)
                    } else {
                        orig[j]
                    },
                self.turn == old(self).turn,
                self.busy == old(self).busy,
                self.stop_pending == old(self).stop_pending,
                self.start == old(self).start,
                self.awaiting_ack == old(self).awaiting_ack,
                self.disconnected == old(self).disconnected,
                self.revision == old(self).revision,
            decreases n - i,
        {
            let replacement = match &self.entries[i] {
                Entry::Activity { id, label, tool, state: ActivityState::Running } => {
                    let state = if stopped {
                        ActivityState::Stopped
                    } else {
                        ActivityState::Failed(String::from_str("Turn ended before the tool responded"))
                    };
                    assert(state@ == to);
                    let e = Entry::Activity {
                        id: id.clone(),
                        label: label.clone(),
                        tool: tool.clone(),
                        state,
                    };
                    assert(e@ == settle_entry(self.entries@[i as int]@, to));
                    Some(e)
                },
                _ => None,
            };
            assert(entry_views(self.entries@)[i as int] == orig[i as int]);
            assert(replacement is None ==> settle_entry(orig[i as int], to) == orig[i as int]);
            assert(replacement matches Some(e) ==> e@ == settle_entry(orig[i as int], to));
            if let Some(e) = replacement {
                let ghost before = self.entries@;
                self.entries.set(i, e);
                assert(entry_views(self.entries@) =~= entry_views(before).update(i as int, e@));
            }
            assert(entry_views(self.entries@)[i as int] == settle_entry(orig[i as int], to));
            i = i + 1;
        }
        assert(entry_views(self.entries@) =~= settle_running(orig, self.start as int, to));
    }

    /// End the turn: drop waiting statuses, fail running tools and append
    /// `status`.
    fn finish(&mut self, status: Option<Status>)
        requires
            old(self)@.wf(),
            status matches Some(s) ==> !is_waiting(EntryView::Status(s@)),
        ensures
            final(self)@ == old(self)@.finish(
                match status {
                    Some(s) => Some(s@),
                    None => None,
                },
            ),
            final(self)@.wf(),
    {
        proof {
            lemma_cleared_keeps_prefix(self@.entries, self@.start);
        }
        self.clear_waiting();
        self.busy = false;
        self.stop_pending = false;
        self.settle_running(false);
        let ghost settled = entry_views(self.entries@);
        if let Some(s) = status {
            self.entries.push(Entry::Status(s));
            assert(entry_views(self.entries@) =~= settled.push(EntryView::Status(s@)));
        }
    }

    /// Index of the first `kind` item called `id` in the current turn.
    fn find_item(&self, kind: ItemKind, id: &str) -> (r: Option<usize>)
        requires
            self.start <= self.entries@.len(),
        ensures
            match r {
                Some(k) => TranscriptView::find_item(self@.entries, self@.start, kind, id@) == Some(k as int),
                None => TranscriptView::find_item(self@.entries, self@.start, kind, id@) is None,
            },
    {
        let n = self.entries.len();
        let mut i: usize = self.start;
        while i < n
            invariant
                n == self.entries@.len(),
                self.start <= i <= n,
                TranscriptView::find_item(self@.entries, self@.start, kind, id@) == TranscriptView::find_item(
                    self@.entries,
                    i as int,
                    kind,
                    id@,
                ),
            decreases n - i,
        {
            let hit = match (kind, &self.entries[i]) {
                (ItemKind::Assistant, Entry::Assistant { id: key, .. }) => str_eq(key.as_str(), id),
                (ItemKind::Thinking, Entry::Thinking { id: key, .. }) => str_eq(key.as_str(), id),
                _ => false,
            };
            assert(entry_views(self.entries@)[i as int] == self.entries@[i as int]@);
            if hit {
                return Some(i);
            }
            i = i + 1;
        }
        None
    }

    /// Index of the first activity called `id` in the current turn.
    fn find_activity(&self, id: &str) -> (r: Option<usize>)
        requires
            self.start <= self.entries@.len(),
        ensures
            match r {
                Some(k) => TranscriptView::find_activity(self@.entries, self@.start, id@) == Some(k as int),
                None => TranscriptView::find_activity(self@.entries, self@.start, id@) is None,
            },
    {
        let n = self.entries.len();
        let mut i: usize = self.start;
        while i < n
            invariant
                n == self.entries@.len(),
                self.start <= i <= n,
                TranscriptView::find_activity(self@.entries, self@.start, id@) == TranscriptView::find_activity(
                    self@.entries,
                    i as int,
                    id@,
                ),
            decreases n - i,
        {
            let hit = match &self.entries[i] {
                Entry::Activity { id: key, .. } => str_eq(key.as_str(), id),
                _ => false,
            };
            assert(entry_views(self.entries@)[i as int] == self.entries@[i as int]@);
            if hit {
                return Some(i);
            }
            i = i + 1;
        }
        None
    }
}

/// A new streamed item.
fn make_item(kind: ItemKind, id: String, text: String) -> (r: Entry)
    ensures
        r@ == new_item(kind, id@, text@),
{
    match kind {
        ItemKind::Assistant => Entry::Assistant { id, text },
        ItemKind::Thinking => Entry::Thinking { id, text },
    }
}

impl Transcript {
    fn on_send(&mut self, text: String, edit: bool) -> (r: bool)
        requires
            old(self)@.wf(),
        ensures
            (final(self)@, r) == old(self)@.step(EventView::Send(text@, edit), 0),
            final(self)@.wf(),
    {
        if self.busy || self.stop_pending {
            return false;
        }
        let ghost es = self@.entries;
        self.start = self.entries.len();
        self.turn = None;
        self.busy = true;
        self.awaiting_ack = true;
        let ghost tv = text@;
        self.entries.push(Entry::User(text, edit));
        self.entries.push(Entry::Status(Status::Preparing));
        assert(self@.entries =~= es.push(EntryView::User(tv, edit)).push(
            EntryView::Status(StatusView::Preparing),
        ));
        true
    }

    fn on_turn_started(&mut self, turn: String, now: u64) -> (r: bool)
        requires
            old(self)@.wf(),
        ensures
            (final(self)@, r) == old(self)@.step(EventView::TurnStarted(turn@), now),
            final(self)@.wf(),
    {
        if !self.awaiting_ack {
            return false;
        }
        self.awaiting_ack = false;
        self.turn = Some(turn);
        if self.busy {
            proof {
                lemma_cleared_keeps_prefix(self@.entries, self@.start);
            }
            self.clear_waiting();
            let ghost es = self@.entries;
            self.entries.push(Entry::Status(Status::Waiting { started: now }));
            assert(self@.entries =~= es.push(EntryView::Status(StatusView::Waiting { started: now })));
        }
        true
    }

    fn on_turn_completed(&mut self, turn: String, error: Option<String>) -> (r: bool)
        requires
            old(self)@.wf(),
        ensures
            (final(self)@, r) == old(self)@.step(
                EventView::TurnCompleted { turn: turn@, error: opt_view(error) },
                0,
            ),
            final(self)@.wf(),
    {
        let same = match &self.turn {
            Some(t) => str_eq(t.as_str(), turn.as_str()),
            None => false,
        };
        if !same || !(self.busy || self.stop_pending) {
            return false;
        }
        let status = match error {
            Some(e) => Some(Status::Error(e)),
            None => if self.stop_pending {
                Some(Status::Stopped)
            } else {
                None
            },
        };
        self.finish(status);
        true
    }

    fn on_item(&mut self, turn: String, id: String, kind: ItemKind, update: Update) -> (r: bool)
        requires
            old(self)@.wf(),
        ensures
            (final(self)@, r) == old(self)@.item_step(turn@, id@, kind, update@),
            final(self)@.wf(),
    {
        if !self.accepts(turn.as_str()) {
            return false;
        }
        let wants = match &update {
            Update::Delta(d) => d.unicode_len() > 0,
            Update::Completed(_) => true,
            Update::Started => false,
        };
        proof {
            lemma_cleared_keeps_prefix(self@.entries, self@.start);
        }
        proof {
            lemma_cleared_nothing_waiting(self@.entries);
        }
        let cleared = if wants {
            self.clear_waiting()
        } else {
            false
        };
        let existing = self.find_item(kind, id.as_str());
        proof {
            lemma_find_item(self@.entries, self@.start, kind, id@);
        }
        match existing {
            Some(k) => {
                let cur: String = match &self.entries[k] {
                    Entry::Assistant { text, .. } => text.clone(),
                    Entry::Thinking { text, .. } => text.clone(),
                    _ => String::new(),
                };
                assert(cur@ == item_text(self@.entries[k as int]));
                let ghost es = self@.entries;
                match update {
                    Update::Delta(d) => {
                        if d.unicode_len() == 0 {
                            return cleared;
                        }
                        let t = cur.concat(d.as_str());
                        let e = make_item(kind, id, t);
                        self.entries.set(k, e);
                        assert(self@.entries =~= es.update(k as int, e@));
                    },
                    Update::Completed(Some(v)) => {
                        if str_eq(cur.as_str(), v.as_str()) {
                            return cleared;
                        }
                        let e = make_item(kind, id, v);
                        self.entries.set(k, e);
                        assert(self@.entries =~= es.update(k as int, e@));
                    },
                    _ => {
                        return cleared;
                    },
                }
            },
            None => {
                let text = match update {
                    Update::Delta(d) => d,
                    Update::Completed(Some(v)) => v,
                    _ => String::new(),
                };
                let ghost es = self@.entries;
                let e = make_item(kind, id, text);
                self.entries.push(e);
                assert(self@.entries =~= es.push(e@));
            },
        }
        true
    }

    fn on_tool_started(&mut self, turn: String, id: String, label: String, tool: String) -> (r: bool)
        requires
            old(self)@.wf(),
        ensures
            (final(self)@, r) == old(self)@.step(
                EventView::ToolStarted { turn: turn@, id: id@, label: label@, tool: tool@ },
                0,
            ),
            final(self)@.wf(),
    {
        if !self.accepts(turn.as_str()) || self.find_activity(id.as_str()).is_some() {
            return false;
        }
        proof {
            lemma_cleared_keeps_prefix(self@.entries, self@.start);
        }
        self.clear_waiting();
        let ghost es = self@.entries;
        let e = Entry::Activity { id, label, tool, state: ActivityState::Running };
        self.entries.push(e);
        assert(self@.entries =~= es.push(e@));
        true
    }

    fn on_tool_finished(&mut self, turn: String, id: String, error: Option<String>) -> (r: bool)
        requires
            old(self)@.wf(),
        ensures
            (final(self)@, r) == old(self)@.step(
                EventView::ToolFinished { turn: turn@, id: id@, error: opt_view(error) },
                0,
            ),
            final(self)@.wf(),
    {
        if !self.accepts(turn.as_str()) {
            return false;
        }
        proof {
            lemma_find_activity(self@.entries, self@.start, id@);
        }
        let k = match self.find_activity(id.as_str()) {
            Some(k) => k,
            None => return false,
        };
        let replacement = match &self.entries[k] {
            Entry::Activity { id: key, label, tool, state: ActivityState::Running } => Some(
                Entry::Activity {
                    id: key.clone(),
                    label: label.clone(),
                    tool: tool.clone(),
                    state: match error {
                        Some(e) => ActivityState::Failed(e),
                        None => ActivityState::Done,
                    },
                },
            ),
            _ => None,
        };
        match replacement {
            None => false,
            Some(e) => {
                let ghost es = self@.entries;
                self.entries.set(k, e);
                assert(self@.entries =~= es.update(k as int, e@));
                true
            },
        }
    }

    fn on_close(&mut self, intentional: bool) -> (r: bool)
        requires
            old(self)@.wf(),
        ensures
            (final(self)@, r) == old(self)@.close(intentional),
            final(self)@.wf(),
    {
        let changed = !self.disconnected || self.busy || self.stop_pending || self.awaiting_ack
            || self.turn.is_some();
        self.disconnected = true;
        self.awaiting_ack = false;
        if intentional {
            self.settle_running(true);
        }
        let status = if self.busy || self.stop_pending {
            Some(
                if intentional {
                    Status::Stopped
                } else {
                    Status::Error(String::from_str("Connection lost"))
                },
            )
        } else {
            None
        };
        self.finish(status);
        self.turn = None;
        changed
    }

    fn apply_event(&mut self, event: Event, now: u64) -> (r: bool)
        requires
            old(self)@.wf(),
        ensures
            (final(self)@, r) == old(self)@.step(event@, now),
            final(self)@.wf(),
    {
        match event {
            Event::Receipt(receipt) => {
                let ghost es = self@.entries;
                let e = Entry::Receipt(receipt);
                self.entries.push(e);
                assert(self@.entries =~= es.push(e@));
                true
            },
            Event::Send(text, edit) => self.on_send(text, edit),
            Event::TurnStarted(turn) => self.on_turn_started(turn, now),
            Event::TurnCompleted { turn, error } => self.on_turn_completed(turn, error),
            Event::Item { turn, id, kind, update } => self.on_item(turn, id, kind, update),
            Event::ToolStarted { turn, id, label, tool } => self.on_tool_started(turn, id, label, tool),
            Event::ToolFinished { turn, id, error } => self.on_tool_finished(turn, id, error),
            Event::StopRequested => {
                if !self.busy {
                    return false;
                }
                self.busy = false;
                self.stop_pending = true;
                proof {
                    lemma_cleared_keeps_prefix(self@.entries, self@.start);
                }
                self.clear_waiting();
                true
            },
            Event::StopTimeout => {
                if !self.stop_pending {
                    return false;
                }
                self.finish(Some(Status::Stopped));
                true
            },
            Event::Failed(error) => {
                self.awaiting_ack = false;
                self.finish(Some(Status::Error(error)));
                true
            },
            Event::AnalysisClosed => self.on_close(true),
            Event::Disconnected => self.on_close(false),
            Event::Reconnected => {
                if !self.disconnected {
                    return false;
                }
                self.disconnected = false;
                let ghost es = self@.entries;
                let e = Entry::Status(Status::Reconnected);
                self.entries.push(e);
                assert(self@.entries =~= es.push(e@));
                true
            },
        }
    }

    /// Apply `event` at time `now` (milliseconds); the revision advances
    /// (wrapping) exactly when the transcript changed.
    pub fn apply(&mut self, event: Event, now: u64) -> (r: bool)
        requires
            old(self).wf(),
        ensures
            final(self).wf(),
            r == old(self)@.step(event@, now).1,
            final(self)@ == old(self)@.applied(event@, now),
    {
        let changed = self.apply_event(event, now);
        if changed {
            self.revision = if self.revision == u64::MAX {
                0
            } else {
                self.revision + 1
            };
        }
        changed
    }
}

/// The waiting label for `elapsed_secs` whole seconds.
pub fn waiting_label(elapsed_secs: u64) -> (r: String)
    ensures
        r@ == waiting_text(elapsed_secs),
{
    let head = if elapsed_secs >= 15 {
        String::from_str("Still waiting")
    } else {
        String::from_str("Waiting for response")
    };
    head.concat(" · ").concat(decimal_text(elapsed_secs).as_str()).concat(" s")
}

impl Entry {
    /// The entry as plain text at time `now` (milliseconds).
    pub fn text(&self, now: u64) -> (r: String)
        ensures
            r@ == entry_text(self@, now),
    {
        match self {
            Entry::User(text, _) => text.clone(),
            Entry::Assistant { text, .. } => text.clone(),
            Entry::Thinking { text, .. } => text.clone(),
            Entry::Receipt(receipt) => receipt.text(),
            Entry::Activity { label, state, .. } => {
                let suffix = match state {
                    ActivityState::Running => String::new(),
                    ActivityState::Done => String::from_str(" · done"),
                    ActivityState::Stopped => String::from_str(" · stopped"),
                    ActivityState::Failed(error) => String::from_str(" · failed: ").concat(error.as_str()),
                };
                label.clone().concat(suffix.as_str())
            },
            Entry::Status(status) => match status {
                Status::Preparing => String::from_str("Preparing…"),
                Status::Waiting { started } => waiting_label(now.saturating_sub(*started) / 1000),
                Status::Stopped => String::from_str("Stopped"),
                Status::Error(error) => String::from_str("Error: ").concat(error.as_str()),
                Status::Reconnected => String::from_str(
                    "Connection restored. The next message starts a new conversation.",
                ),
            },
        }
    }

    /// The heading of the entry in a copied conversation.
    pub fn role(&self) -> (r: &'static str)
        ensures
            r@ == role_text(self@),
    {
        match self {
            Entry::User(_, true) => "You · Edit",
            Entry::User(_, false) => "You · Review",
            Entry::Receipt(_) => "Receipt",
            Entry::Assistant { .. } => "Assistant",
            Entry::Thinking { .. } => "Thinking",
            Entry::Activity { .. } => "Activity",
            Entry::Status(_) => "Status",
        }
    }
}

impl Transcript {
    /// The conversation as Markdown, for copying.
    pub fn conversation(&self, now: u64) -> (r: String)
        ensures
            r@ == conversation_text(self@.entries, now),
    {
        let mut sections: Vec<String> = Vec::new();
        let n = self.entries.len();
        let mut i: usize = 0;
        while i < n
            invariant
                n == self.entries@.len(),
                i <= n,
                sections@.len() == i,
                forall|k: int|
                    0 <= k < i ==> #[trigger] sections@[k]@ == section_text(self.entries@[k]@, now),
            decreases n - i,
        {
            let e = &self.entries[i];
            let section = String::from_str("## ").concat(e.role()).concat("\n\n").concat(
                e.text(now).as_str(),
            ).concat("\n");
            sections.push(section);
            i = i + 1;
        }
        assert(views(sections@) =~= self@.entries.map_values(|e: EntryView| section_text(e, now)));
        join(&sections, "\n")
    }
}

/// The number of positions below `n` where `a` and `b` differ.
pub open spec fn differing(a: Seq<EntryView>, b: Seq<EntryView>, n: int) -> nat
    decreases n,
{
    if n <= 0 {
        0
    } else {
        differing(a, b, n - 1) + if a[n - 1] != b[n - 1] {
            1nat
        } else {
            0nat
        }
    }
}

/// `r` advanced `n` times, wrapping at `u64::MAX`.
pub open spec fn advance(r: u64, n: nat) -> u64
    decreases n,
{
    if n == 0 {
        r
    } else {
        next_revision(advance(r, (n - 1) as nat))
    }
}

impl Transcript {
    /// Refresh every receipt against the studio's state (see
    /// [`refreshed`]); the revision advances once for each receipt that
    /// changed.
    pub fn refresh_receipts(&mut self, s: &StudioStatus)
        requires
            old(self).wf(),
        ensures
            final(self).wf(),
            final(self).entries@.len() == old(self).entries@.len(),
            forall|i: int|
                0 <= i < old(self).entries@.len() ==> match #[trigger] old(self).entries@[i] {
                    Entry::Receipt(r1) => final(self).entries@[i] matches Entry::Receipt(r2) && r2@
                        == refreshed(r1@, *s),
                    e => final(self).entries@[i] == e,
                },
            final(self)@ == (TranscriptView {
                entries: final(self)@.entries,
                revision: advance(
                    old(self)@.revision,
                    differing(old(self)@.entries, final(self)@.entries, old(self)@.entries.len() as int),
                ),
                ..old(self)@
            }),
    {
        let update = |r: &Receipt| -> (out: Receipt)
            ensures
                out@ == refreshed(r@, *s),
            {
                let mut c = r.duplicate();
                c.refresh(s);
                c
            };
        self.update_receipts(update);
    }

    /// Replace every receipt by `update` of it; the revision advances once
    /// for each receipt that changed.
    pub fn update_receipts(&mut self, update: impl Fn(&Receipt) -> Receipt)
        requires
            old(self).wf(),
            forall|r: &Receipt| #[trigger] update.requires((r,)),
        ensures
            final(self).wf(),
            final(self).entries@.len() == old(self).entries@.len(),
            forall|i: int|
                0 <= i < old(self).entries@.len() ==> match #[trigger] old(self).entries@[i] {
                    Entry::Receipt(r1) => final(self).entries@[i] matches Entry::Receipt(r2)
                        && update.ensures((&r1,), r2),
                    e => final(self).entries@[i] == e,
                },
            final(self)@ == (TranscriptView {
                entries: final(self)@.entries,
                revision: advance(
                    old(self)@.revision,
                    differing(old(self)@.entries, final(self)@.entries, old(self)@.entries.len() as int),
                ),
                ..old(self)@
            }),
    {
        let ghost orig = self.entries@;
        let ghost rev0 = self.revision;
        let n = self.entries.len();
        let mut i: usize = 0;
        while i < n
            invariant
                n == orig.len(),
                self.entries@.len() == n,
                i <= n,
                forall|r: &Receipt| #[trigger] update.requires((r,)),
                forall|k: int|
                    0 <= k < n ==> match #[trigger] orig[k] {
                        Entry::Receipt(r1) => if k < i {
                            self.entries@[k] matches Entry::Receipt(r2) && update.ensures((&r1,), r2)
                        } else {
                            self.entries@[k] == orig[k]
                        },
                        e => self.entries@[k] == e,
                    },
                self.revision == advance(rev0, differing(entry_views(orig), entry_views(self.entries@), i as int)),
                rev0 == old(self).revision,
                orig == old(self).entries@,
                self.turn == old(self).turn,
                self.busy == old(self).busy,
                self.stop_pending == old(self).stop_pending,
                self.start == old(self).start,
                self.awaiting_ack == old(self).awaiting_ack,
                self.disconnected == old(self).disconnected,
            decreases n - i,
        {
            let ghost before = self.entries@;
            let replacement = match &self.entries[i] {
                Entry::Receipt(r) => {
                    let next = update(r);
                    let changed = !same_receipt(&next, r);
                    Some((next, changed))
                },
                _ => None,
            };
            if let Some((next, changed)) = replacement {
                let e = Entry::Receipt(next);
                self.entries.set(i, e);
                proof {
                    lemma_differing_unchanged_prefix(
                        entry_views(orig),
                        entry_views(before),
                        entry_views(self.entries@),
                        i as int,
                    );
                }
                if changed {
                    self.revision = if self.revision == u64::MAX {
                        0
                    } else {
                        self.revision + 1
                    };
                }
            } else {
                assert(entry_views(self.entries@)[i as int] == entry_views(orig)[i as int]);
            }
            i = i + 1;
        }
        proof {
            assert forall|k: int| 0 <= k < n implies !is_waiting(#[trigger] entry_views(self.entries@)[k])
                == !is_waiting(entry_views(orig)[k]) && (is_running(entry_views(self.entries@)[k])
                == is_running(entry_views(orig)[k])) by {
                match orig[k] {
                    Entry::Receipt(_) => {},
                    _ => {},
                }
            }
        }
    }
}

/// Changing `b` only at position `n` keeps the count below `n`.
pub proof fn lemma_differing_unchanged_prefix(a: Seq<EntryView>, b: Seq<EntryView>, c: Seq<EntryView>, n: int)
    requires
        0 <= n,
        n < b.len(),
        b.len() == c.len(),
        forall|k: int| 0 <= k < n ==> b[k] == c[k],
    ensures
        differing(a, b, n) == differing(a, c, n),
    decreases n,
{
    if n > 0 {
        lemma_differing_unchanged_prefix(a, b, c, n - 1);
    }
}

/// The revision after `r`, wrapping at `u64::MAX`.
pub open spec fn next_revision(r: u64) -> u64 {
    if r == u64::MAX {
        0
    } else {
        (r + 1) as u64
    }
}

/// Without waiting statuses, clearing them changes nothing.
pub proof fn lemma_cleared_nothing_waiting(es: Seq<EntryView>)
    ensures
        !has_waiting(es) ==> cleared(es) == es,
    decreases es.len(),
{
    reveal(Seq::filter);
    if es.len() > 0 && !has_waiting(es) {
        let init = es.drop_last();
        assert forall|i: int| 0 <= i < init.len() implies !is_waiting(#[trigger] init[i]) by {
            assert(init[i] == es[i]);
        }
        lemma_cleared_nothing_waiting(init);
        assert(!is_waiting(es[es.len() - 1]));
        assert(cleared(es) =~= es);
    }
}

/// What `find_item` returns: the first matching item from `i` on, if any.
pub proof fn lemma_find_item(es: Seq<EntryView>, i: int, kind: ItemKind, id: Seq<char>)
    requires
        0 <= i,
    ensures
        match TranscriptView::find_item(es, i, kind, id) {
            Some(k) => i <= k < es.len() && is_item(es[k], kind, id) && forall|j: int|
                i <= j < k ==> !is_item(#[trigger] es[j], kind, id),
            None => forall|j: int| i <= j < es.len() ==> !is_item(#[trigger] es[j], kind, id),
        },
    decreases es.len() - i,
{
    if i < es.len() && !is_item(es[i], kind, id) {
        lemma_find_item(es, i + 1, kind, id);
    }
}

/// An activity called `id`.
pub open spec fn is_activity(e: EntryView, id: Seq<char>) -> bool {
    e matches EntryView::Activity { id: key, .. } && key == id
}

/// What `find_activity` returns: the first activity with that id from `i` on.
pub proof fn lemma_find_activity(es: Seq<EntryView>, i: int, id: Seq<char>)
    requires
        0 <= i,
    ensures
        match TranscriptView::find_activity(es, i, id) {
            Some(k) => i <= k < es.len() && is_activity(es[k], id) && forall|j: int|
                i <= j < k ==> !is_activity(#[trigger] es[j], id),
            None => forall|j: int| i <= j < es.len() ==> !is_activity(#[trigger] es[j], id),
        },
    decreases es.len() - i,
{
    if i < es.len() && !(es[i] matches EntryView::Activity { id: key, .. } && key == id) {
        lemma_find_activity(es, i + 1, id);
    }
}

impl Default for Transcript {
    fn default() -> (r: Transcript)
        ensures
            r@ == TranscriptView::empty(),
            r.wf(),
    {
        Transcript::new()
    }
}

impl TranscriptView {
    /// The state after `event`, with the revision advanced when it changed.
    pub open spec fn applied(self, event: EventView, now: u64) -> TranscriptView {
        let (t, changed) = self.step(event, now);
        if changed {
            TranscriptView { revision: next_revision(t.revision), ..t }
        } else {
            t
        }
    }

    pub open spec fn empty() -> TranscriptView {
        TranscriptView {
            entries: seq![],
            turn: None,
            busy: false,
            stop_pending: false,
            start: 0,
            awaiting_ack: false,
            disconnected: false,
            revision: 0,
        }
    }
}


/// Clearing waiting statuses keeps the entries before `start` in place when
/// none of them is waiting.
pub proof fn lemma_cleared_prefix(es: Seq<EntryView>, start: int)
    requires
        0 <= start <= es.len(),
        forall|i: int| 0 <= i < start ==> !is_waiting(#[trigger] es[i]),
    ensures
        cleared(es).len() >= start,
        cleared(es).take(start) == es.take(start),
{
    let a = es.take(start);
    let b = es.skip(start);
    assert(es =~= a + b);
    Seq::filter_distributes_over_add(a, b, kept());
    assert forall|i: int| 0 <= i < a.len() implies !is_waiting(#[trigger] a[i]) by {
        assert(a[i] == es[i]);
    }
    lemma_cleared_nothing_waiting(a);
    assert(cleared(es) == a + cleared(b));
    assert(cleared(es).take(start) =~= a);
}

/// Settling running activities changes nothing when none is running from `start` on.
pub proof fn lemma_settle_nothing_running(es: Seq<EntryView>, start: int, to: ActivityView)
    requires
        forall|i: int| start <= i < es.len() ==> !is_running(#[trigger] es[i]),
    ensures
        settle_running(es, start, to) == es,
{
    assert(settle_running(es, start, to) =~= es);
}

/// Ignored events leave the transcript unchanged: when the reducer reports
/// no change, the state (revision included) is exactly as before.
pub proof fn law_ignored_event_changes_nothing(t: TranscriptView, event: EventView, now: u64)
    requires
        t.wf(),
        !t.step(event, now).1,
    ensures
        t.applied(event, now) == t,
{
    match event {
        EventView::Item { turn, id, kind, update } => {
            lemma_cleared_nothing_waiting(t.entries);
        },
        EventView::AnalysisClosed | EventView::Disconnected => {
            lemma_settle_nothing_running(t.entries, t.start, ActivityView::Stopped);
            lemma_cleared_nothing_waiting(t.entries);
            assert(!has_waiting(t.entries));
            lemma_settle_nothing_running(t.entries, t.start, ActivityView::Failed(turn_ended()));
        },
        _ => {},
    }
}

/// Closing the analysis window keeps the transcript consistent.
pub proof fn lemma_close_keeps_wf(t: TranscriptView, now: u64)
    requires
        t.wf(),
    ensures
        t.applied(EventView::AnalysisClosed, now).wf(),
{
    let c = t.applied(EventView::AnalysisClosed, now);
    let s0 = settle_running(t.entries, t.start, ActivityView::Stopped);
    assert forall|i: int| 0 <= i < t.start implies !is_waiting(#[trigger] s0[i]) by {
        assert(s0[i] == t.entries[i]);
        if is_waiting(t.entries[i]) {
            assert(t.busy && i >= t.start);
        }
    }
    lemma_cleared_keeps_prefix(s0, t.start);
    let c0 = cleared(s0);
    let s1 = settle_running(c0, t.start, ActivityView::Failed(turn_ended()));
    assert forall|i: int| 0 <= i < s1.len() implies !is_waiting(#[trigger] s1[i]) by {
        assert(!is_waiting(c0[i]));
    }
    assert forall|i: int| t.start <= i < s1.len() implies !is_running(#[trigger] s1[i]) by {}
    if t.busy || t.stop_pending {
        assert(c.entries == s1.push(EntryView::Status(StatusView::Stopped)));
        assert forall|i: int| 0 <= i < c.entries.len() implies !is_waiting(#[trigger] c.entries[i]) by {
            if i < s1.len() {
                assert(c.entries[i] == s1[i]);
            }
        }
        assert forall|i: int| c.start <= i < c.entries.len() implies !is_running(#[trigger] c.entries[i]) by {
            if i < s1.len() {
                assert(c.entries[i] == s1[i]);
            }
        }
    } else {
        assert(c.entries == s1);
    }
}

/// After the analysis window closes, late protocol events are ignored and
/// change nothing: turn acknowledgements and completions, item and tool
/// updates, stop requests and timeouts, and further closes or disconnections.
pub proof fn law_closed_analysis_ignores_late_events(t: TranscriptView, now: u64, event: EventView, later: u64)
    requires
        t.wf(),
        event is TurnStarted || event is TurnCompleted || event is Item || event is ToolStarted
            || event is ToolFinished || event is StopRequested || event is StopTimeout
            || event is AnalysisClosed || event is Disconnected,
    ensures
        !t.applied(EventView::AnalysisClosed, now).step(event, later).1,
        t.applied(EventView::AnalysisClosed, now).applied(event, later) == t.applied(
            EventView::AnalysisClosed,
            now,
        ),
{
    lemma_close_keeps_wf(t, now);
    law_ignored_event_changes_nothing(t.applied(EventView::AnalysisClosed, now), event, later);
}

/// Running entries of `cleared(es)` come only from running entries of `es`.
pub proof fn lemma_cleared_nothing_running(es: Seq<EntryView>)
    requires
        forall|i: int| 0 <= i < es.len() ==> !is_running(#[trigger] es[i]),
    ensures
        forall|i: int| 0 <= i < cleared(es).len() ==> !is_running(#[trigger] cleared(es)[i]),
{
    assert forall|i: int| 0 <= i < cleared(es).len() implies !is_running(#[trigger] cleared(es)[i]) by {
        let e = cleared(es)[i];
        assert(cleared(es).contains(e));
        es.lemma_filter_contains_rev(kept(), e);
        let j = choose|j: int| 0 <= j < es.len() && es[j] == e;
        assert(!is_running(es[j]));
    }
}

/// Closing the analysis window while a turn is running or stopping ends
/// that turn neutrally: the close counts as a change, the transcript is no
/// longer busy or stopping and has no current turn, waiting statuses are
/// dropped, the current turn's running tools become Stopped, and a single
/// Stopped status closes the turn.
pub proof fn law_analysis_close_stops_the_turn(t: TranscriptView, now: u64)
    requires
        t.wf(),
        t.busy || t.stop_pending,
    ensures
        t.step(EventView::AnalysisClosed, now).1,
        !t.applied(EventView::AnalysisClosed, now).busy,
        !t.applied(EventView::AnalysisClosed, now).stop_pending,
        !t.applied(EventView::AnalysisClosed, now).awaiting_ack,
        t.applied(EventView::AnalysisClosed, now).disconnected,
        t.applied(EventView::AnalysisClosed, now).turn is None,
        t.applied(EventView::AnalysisClosed, now).entries == cleared(
            settle_running(t.entries, t.start, ActivityView::Stopped),
        ).push(EntryView::Status(StatusView::Stopped)),
{
    let s0 = settle_running(t.entries, t.start, ActivityView::Stopped);
    assert forall|i: int| 0 <= i < t.start implies !is_waiting(#[trigger] s0[i]) by {
        assert(s0[i] == t.entries[i]);
        if is_waiting(t.entries[i]) {
            assert(t.busy && i >= t.start);
        }
    }
    lemma_cleared_prefix(s0, t.start);
    let c0 = cleared(s0);
    let b = s0.skip(t.start);
    assert(s0 =~= s0.take(t.start) + b);
    Seq::filter_distributes_over_add(s0.take(t.start), b, kept());
    assert forall|i: int| 0 <= i < s0.take(t.start).len() implies !is_waiting(
        #[trigger] s0.take(t.start)[i],
    ) by {
        assert(s0.take(t.start)[i] == s0[i]);
    }
    lemma_cleared_nothing_waiting(s0.take(t.start));
    assert(c0 == s0.take(t.start) + cleared(b));
    assert forall|i: int| 0 <= i < b.len() implies !is_running(#[trigger] b[i]) by {
        assert(b[i] == s0[i + t.start]);
    }
    lemma_cleared_nothing_running(b);
    assert forall|i: int| t.start <= i < c0.len() implies !is_running(#[trigger] c0[i]) by {
        assert(c0[i] == cleared(b)[i - t.start]);
    }
    lemma_settle_nothing_running(c0, t.start, ActivityView::Failed(turn_ended()));
}

/// Streamed text accumulates: a non-empty delta for an item of the running
/// turn drops any waiting status and appends the delta to that item's text,
/// whatever its kind (answer or reasoning); an item not seen yet starts
/// with the delta as its text. Nothing else changes.
pub proof fn law_item_deltas_append(
    t: TranscriptView,
    turn: Seq<char>,
    id: Seq<char>,
    kind: ItemKind,
    d: Seq<char>,
    now: u64,
)
    requires
        t.wf(),
        t.accepts(turn),
        d.len() > 0,
    ensures
        t.step(EventView::Item { turn, id, kind, update: UpdateView::Delta(d) }, now).1,
        ({
            let r = t.applied(EventView::Item { turn, id, kind, update: UpdateView::Delta(d) }, now);
            let es = cleared(t.entries);
            match TranscriptView::find_item(es, t.start, kind, id) {
                Some(k) => {
                    &&& t.start <= k < es.len()
                    &&& forall|j: int| t.start <= j < k ==> !is_item(#[trigger] es[j], kind, id)
                    &&& r.entries.len() == es.len()
                    &&& item_text(r.entries[k]) == item_text(es[k]) + d
                    &&& is_item(r.entries[k], kind, id)
                    &&& forall|j: int| 0 <= j < es.len() && j != k ==> r.entries[j] == es[j]
                },
                None => {
                    &&& forall|j: int| t.start <= j < es.len() ==> !is_item(#[trigger] es[j], kind, id)
                    &&& r.entries == es.push(new_item(kind, id, d))
                },
            }
        }),
        t.applied(EventView::Item { turn, id, kind, update: UpdateView::Delta(d) }, now).busy == t.busy,
        t.applied(EventView::Item { turn, id, kind, update: UpdateView::Delta(d) }, now).turn == t.turn,
{
    lemma_cleared_nothing_waiting(t.entries);
    lemma_find_item(cleared(t.entries), t.start, kind, id);
}

/// Two deltas for the same item read as their concatenation.
pub proof fn law_two_deltas_concatenate(
    t: TranscriptView,
    turn: Seq<char>,
    id: Seq<char>,
    kind: ItemKind,
    d1: Seq<char>,
    d2: Seq<char>,
    now: u64,
    later: u64,
)
    requires
        t.wf(),
        t.accepts(turn),
        d1.len() > 0,
        d2.len() > 0,
        !has_waiting(t.entries),
        TranscriptView::find_item(t.entries, t.start, kind, id) is None,
    ensures
        t.applied(EventView::Item { turn, id, kind, update: UpdateView::Delta(d1) }, now).applied(
            EventView::Item { turn, id, kind, update: UpdateView::Delta(d2) },
            later,
        ).entries == t.entries.push(new_item(kind, id, d1 + d2)),
{
    lemma_cleared_nothing_waiting(t.entries);
    let t1 = t.applied(EventView::Item { turn, id, kind, update: UpdateView::Delta(d1) }, now);
    let e = new_item(kind, id, d1);
    assert(t1.entries == t.entries.push(e));
    assert(!has_waiting(t1.entries)) by {
        assert forall|i: int| 0 <= i < t1.entries.len() implies !is_waiting(#[trigger] t1.entries[i]) by {
            if i < t.entries.len() {
                assert(t1.entries[i] == t.entries[i]);
            }
        }
    }
    lemma_cleared_nothing_waiting(t1.entries);
    lemma_find_item_last(t.entries, t.start, kind, id, e);
}

/// Appending an item to entries that have none called `id` from `i` on
/// makes the new one the first found.
pub proof fn lemma_find_item_last(es: Seq<EntryView>, i: int, kind: ItemKind, id: Seq<char>, e: EntryView)
    requires
        0 <= i <= es.len(),
        TranscriptView::find_item(es, i, kind, id) is None,
        is_item(e, kind, id),
    ensures
        TranscriptView::find_item(es.push(e), i, kind, id) == Some(es.len() as int),
    decreases es.len() - i,
{
    if i < es.len() {
        assert(es.push(e)[i] == es[i]);
        lemma_find_item_last(es, i + 1, kind, id, e);
    }
}

/// A completed item takes the final text it carries: an item of the current
/// turn seen before is replaced by one with that text (the first such item
/// from the turn's start), and an unseen one is added with it. Waiting
/// statuses are dropped either way.
pub proof fn law_completed_item_takes_final_text(
    t: TranscriptView,
    turn: Seq<char>,
    id: Seq<char>,
    kind: ItemKind,
    v: Seq<char>,
    now: u64,
)
    requires
        t.wf(),
        t.accepts(turn),
    ensures
        ({
            let r = t.applied(EventView::Item { turn, id, kind, update: UpdateView::Completed(Some(v)) }, now);
            let es = cleared(t.entries);
            match TranscriptView::find_item(es, t.start, kind, id) {
                Some(k) => {
                    &&& t.start <= k < es.len()
                    &&& forall|j: int| t.start <= j < k ==> !is_item(#[trigger] es[j], kind, id)
                    &&& r.entries == es.update(k, new_item(kind, id, v))
                },
                None => {
                    &&& forall|j: int| t.start <= j < es.len() ==> !is_item(#[trigger] es[j], kind, id)
                    &&& r.entries == es.push(new_item(kind, id, v))
                },
            }
        }),
{
    lemma_cleared_nothing_waiting(t.entries);
    lemma_find_item(cleared(t.entries), t.start, kind, id);
    let es = cleared(t.entries);
    match TranscriptView::find_item(es, t.start, kind, id) {
        Some(k) => {
            if item_text(es[k]) == v {
                assert(es.update(k, new_item(kind, id, v)) =~= es);
            }
        },
        None => {},
    }
}

/// A started item that is new to the current turn appears with no text yet.
pub proof fn law_started_item_appears_empty(
    t: TranscriptView,
    turn: Seq<char>,
    id: Seq<char>,
    kind: ItemKind,
    now: u64,
)
    requires
        t.wf(),
        t.accepts(turn),
        forall|j: int| t.start <= j < t.entries.len() ==> !is_item(#[trigger] t.entries[j], kind, id),
    ensures
        t.step(EventView::Item { turn, id, kind, update: UpdateView::Started }, now).1,
        t.applied(EventView::Item { turn, id, kind, update: UpdateView::Started }, now).entries
            == t.entries.push(new_item(kind, id, seq![])),
{
    lemma_find_item(t.entries, t.start, kind, id);
}

/// Items of a turn that is not running are ignored.
pub proof fn law_items_of_other_turns_are_ignored(t: TranscriptView, turn: Seq<char>, id: Seq<char>, kind: ItemKind, update: UpdateView, now: u64)
    requires
        !t.accepts(turn),
    ensures
        !t.step(EventView::Item { turn, id, kind, update }, now).1,
        t.applied(EventView::Item { turn, id, kind, update }, now) == t,
{
}

/// Sending a message when no turn runs or stops starts a new turn: the
/// user's message and a Preparing status are appended, the turn begins at
/// the message, awaits its identifier from the server, and is busy.
pub proof fn law_send_starts_a_turn(t: TranscriptView, text: Seq<char>, edit: bool, now: u64)
    requires
        !t.busy,
        !t.stop_pending,
    ensures
        t.step(EventView::Send(text, edit), now).1,
        ({
            let r = t.applied(EventView::Send(text, edit), now);
            &&& r.entries == t.entries + seq![EntryView::User(text, edit), EntryView::Status(StatusView::Preparing)]
            &&& r.start == t.entries.len()
            &&& r.busy && r.awaiting_ack && !r.stop_pending
            &&& r.turn is None
        }),
{
    assert(t.entries.push(EntryView::User(text, edit)).push(EntryView::Status(StatusView::Preparing))
        =~= t.entries + seq![EntryView::User(text, edit), EntryView::Status(StatusView::Preparing)]);
}

/// The server's turn identifier is taken only while one is awaited: it
/// becomes the current turn, and a running turn's Preparing status gives way
/// to a Waiting status that started now.
pub proof fn law_turn_start_names_the_turn(t: TranscriptView, turn: Seq<char>, now: u64)
    ensures
        t.awaiting_ack ==> {
            let r = t.applied(EventView::TurnStarted(turn), now);
            &&& t.step(EventView::TurnStarted(turn), now).1
            &&& r.turn == Some(turn)
            &&& !r.awaiting_ack
            &&& r.busy == t.busy
            &&& r.entries == if t.busy {
                cleared(t.entries).push(EntryView::Status(StatusView::Waiting { started: now }))
            } else {
                t.entries
            }
        },
        !t.awaiting_ack ==> t.applied(EventView::TurnStarted(turn), now) == t,
{
}

/// Completion of the current turn ends it: it is no longer busy or
/// stopping, waiting statuses go, tools still running fail as "Turn ended
/// before the tool responded", and the turn closes with its error, or as
/// Stopped when a stop was pending, or with no status. Completion of
/// another turn, or when no turn runs, changes nothing.
pub proof fn law_turn_completion_ends_the_turn(t: TranscriptView, turn: Seq<char>, error: Option<Seq<char>>, now: u64)
    ensures
        ({
            let ev = EventView::TurnCompleted { turn, error };
            let r = t.applied(ev, now);
            let base = settle_running(cleared(t.entries), t.start, ActivityView::Failed(turn_ended()));
            if t.turn == Some(turn) && (t.busy || t.stop_pending) {
                &&& t.step(ev, now).1
                &&& !r.busy && !r.stop_pending
                &&& r.turn == t.turn
                &&& r.entries == match error {
                    Some(e) => base.push(EntryView::Status(StatusView::Error(e))),
                    None => if t.stop_pending {
                        base.push(EntryView::Status(StatusView::Stopped))
                    } else {
                        base
                    },
                }
            } else {
                r == t
            }
        }),
{
}

/// A tool started for the running turn under a new id is shown running,
/// after the waiting statuses are dropped; a second start of the same id,
/// or one for another turn, is ignored.
pub proof fn law_tool_start_shows_it_running(
    t: TranscriptView,
    turn: Seq<char>,
    id: Seq<char>,
    label: Seq<char>,
    tool: Seq<char>,
    now: u64,
)
    requires
        t.wf(),
    ensures
        ({
            let ev = EventView::ToolStarted { turn, id, label, tool };
            let r = t.applied(ev, now);
            let fresh = forall|j: int| t.start <= j < t.entries.len() ==> !is_activity(#[trigger] t.entries[j], id);
            if t.accepts(turn) && fresh {
                t.step(ev, now).1 && r.entries == cleared(t.entries).push(
                    EntryView::Activity { id, label, tool, state: ActivityView::Running },
                )
            } else {
                r == t
            }
        }),
{
    lemma_find_activity(t.entries, t.start, id);
}

/// A running tool of the running turn that finishes becomes Done, or Failed
/// with the error it reported; its label and tool stay and nothing else
/// changes.
pub proof fn law_tool_finish_settles_it(
    t: TranscriptView,
    turn: Seq<char>,
    id: Seq<char>,
    error: Option<Seq<char>>,
    k: int,
    now: u64,
)
    requires
        t.wf(),
        t.accepts(turn),
        t.start <= k < t.entries.len(),
        is_activity(t.entries[k], id),
        is_running(t.entries[k]),
        forall|j: int| t.start <= j < k ==> !is_activity(#[trigger] t.entries[j], id),
    ensures
        t.step(EventView::ToolFinished { turn, id, error }, now).1,
        t.applied(EventView::ToolFinished { turn, id, error }, now).entries == t.entries.update(
            k,
            EntryView::Activity {
                id,
                label: t.entries[k]->Activity_label,
                tool: t.entries[k]->Activity_tool,
                state: match error {
                    Some(e) => ActivityView::Failed(e),
                    None => ActivityView::Done,
                },
            },
        ),
{
    lemma_find_activity(t.entries, t.start, id);
    let f = TranscriptView::find_activity(t.entries, t.start, id);
    assert(f == Some(k)) by {
        if f != Some(k) {
            match f {
                Some(k2) => {
                    if k2 < k {
                        assert(!is_activity(t.entries[k2], id));
                    } else {
                        assert(!is_activity(t.entries[k], id));
                    }
                },
                None => {
                    assert(!is_activity(t.entries[k], id));
                },
            }
        }
    }
}

/// A stop request on a running turn puts it into stopping: it no longer
/// runs, a stop is pending, the turn is kept and waiting statuses go. With
/// no running turn it changes nothing.
pub proof fn law_stop_request_starts_stopping(t: TranscriptView, now: u64)
    ensures
        t.busy ==> {
            let r = t.applied(EventView::StopRequested, now);
            &&& t.step(EventView::StopRequested, now).1
            &&& !r.busy && r.stop_pending
            &&& r.turn == t.turn
            &&& r.entries == cleared(t.entries)
        },
        !t.busy ==> t.applied(EventView::StopRequested, now) == t,
{
}

/// When a pending stop times out the turn ends as Stopped.
pub proof fn law_stop_timeout_ends_as_stopped(t: TranscriptView, now: u64)
    ensures
        t.stop_pending ==> {
            let r = t.applied(EventView::StopTimeout, now);
            &&& t.step(EventView::StopTimeout, now).1
            &&& !r.busy && !r.stop_pending
            &&& r.entries.len() > 0
            &&& r.entries.last() == EntryView::Status(StatusView::Stopped)
        },
        !t.stop_pending ==> t.applied(EventView::StopTimeout, now) == t,
{
}

/// A failed request ends any turn with its error as the last entry.
pub proof fn law_failure_ends_with_its_error(t: TranscriptView, e: Seq<char>, now: u64)
    ensures
        t.step(EventView::Failed(e), now).1,
        !t.applied(EventView::Failed(e), now).busy,
        !t.applied(EventView::Failed(e), now).stop_pending,
        !t.applied(EventView::Failed(e), now).awaiting_ack,
        t.applied(EventView::Failed(e), now).entries.last() == EntryView::Status(StatusView::Error(e)),
{
}

/// Losing the connection during a turn ends it with "Connection lost": the
/// transcript is disconnected, has no current turn and is idle, and tools
/// still running fail. Reconnecting after that is noted once.
pub proof fn law_disconnect_ends_the_turn(t: TranscriptView, now: u64)
    ensures
        (t.busy || t.stop_pending) ==> {
            let r = t.applied(EventView::Disconnected, now);
            &&& t.step(EventView::Disconnected, now).1
            &&& r.disconnected && !r.busy && !r.stop_pending && !r.awaiting_ack
            &&& r.turn is None
            &&& r.entries == settle_running(cleared(t.entries), t.start, ActivityView::Failed(turn_ended())).push(
                EntryView::Status(StatusView::Error("Connection lost"@)),
            )
        },
        t.disconnected ==> t.applied(EventView::Reconnected, now).entries == t.entries.push(
            EntryView::Status(StatusView::Reconnected),
        ) && !t.applied(EventView::Reconnected, now).disconnected,
        !t.disconnected ==> t.applied(EventView::Reconnected, now) == t,
{
}

/// Once a stop is requested, no turn accepts tool or item events.
pub proof fn law_stop_rejects_turn_events(t: TranscriptView, now: u64, turn: Seq<char>)
    ensures
        !t.applied(EventView::StopRequested, now).accepts(turn),
{
}

/// A message is refused while a turn is running or stopping.
pub proof fn law_send_refused_while_busy(t: TranscriptView, text: Seq<char>, edit: bool, now: u64)
    requires
        t.busy || t.stop_pending,
    ensures
        t.applied(EventView::Send(text, edit), now) == t,
        !t.step(EventView::Send(text, edit), now).1,
{
}

/// Earlier turns are never rewritten: no event changes the entries before
/// the current turn's start.
pub proof fn law_earlier_turns_preserved(t: TranscriptView, event: EventView, now: u64)
    requires
        t.wf(),
    ensures
        t.applied(event, now).entries.len() >= t.start,
        t.applied(event, now).entries.take(t.start) == t.entries.take(t.start),
{
    assert forall|i: int| 0 <= i < t.start implies !is_waiting(#[trigger] t.entries[i]) by {
        if is_waiting(t.entries[i]) {
            assert(t.busy && i >= t.start);
        }
    }
    lemma_cleared_prefix(t.entries, t.start);
    let c = cleared(t.entries);
    let s1 = settle_running(c, t.start, ActivityView::Failed(turn_ended()));
    assert(s1.take(t.start) =~= c.take(t.start));
    match event {
        EventView::Item { turn, id, kind, update } => {
            lemma_find_item(t.entries, t.start, kind, id);
            lemma_find_item(c, t.start, kind, id);
            let r = t.applied(event, now).entries;
            assert(r.take(t.start) =~= t.entries.take(t.start));
        },
        EventView::ToolFinished { turn, id, error } => {
            lemma_find_activity(t.entries, t.start, id);
            assert(t.applied(event, now).entries.take(t.start) =~= t.entries.take(t.start));
        },
        EventView::AnalysisClosed => {
            let s0 = settle_running(t.entries, t.start, ActivityView::Stopped);
            assert(s0.take(t.start) =~= t.entries.take(t.start));
            assert forall|i: int| 0 <= i < t.start implies !is_waiting(#[trigger] s0[i]) by {
                assert(s0[i] == t.entries[i]);
            }
            lemma_cleared_prefix(s0, t.start);
            let c0 = cleared(s0);
            let s2 = settle_running(c0, t.start, ActivityView::Failed(turn_ended()));
            assert(s2.take(t.start) =~= c0.take(t.start));
            assert(t.applied(event, now).entries.take(t.start) =~= t.entries.take(t.start));
        },
        _ => {
            assert(t.applied(event, now).entries.take(t.start) =~= t.entries.take(t.start));
        },
    }
}

} // verus!
