use rexafs_gui::receipts::{Receipt, Stage, StudioStatus};
use rexafs_gui::transcript::{
    waiting_label, ActivityState, Entry, Event, ItemKind, Status, Transcript, Update,
};

const NOW: u64 = 5_000_000;

fn active(now: u64) -> Transcript {
    let mut t = Transcript::default();
    assert!(t.apply(Event::Send("hello".into(), false), now));
    assert_eq!(t.entries[1].text(now), "Preparing…");
    assert!(t.apply(Event::TurnStarted("turn".into()), now));
    t
}
fn item(id: &str, update: Update) -> Event {
    Event::Item {
        turn: "turn".into(),
        id: id.into(),
        kind: ItemKind::Assistant,
        update,
    }
}
fn tool(id: &str) -> Event {
    Event::ToolStarted {
        turn: "turn".into(),
        id: id.into(),
        label: "Inspecting…".into(),
        tool: "xray_get_plots".into(),
    }
}
fn finished(id: &str, error: Option<&str>) -> Event {
    Event::ToolFinished {
        turn: "turn".into(),
        id: id.into(),
        error: error.map(str::to_owned),
    }
}
fn completed(turn: &str, error: Option<&str>) -> Event {
    Event::TurnCompleted {
        turn: turn.into(),
        error: error.map(str::to_owned),
    }
}

#[test]
fn mode_and_app_receipts_survive_turn_completion() {
    let now = NOW;
    let mut t = Transcript::default();
    t.apply(Event::Send("edit".into(), true), now);
    t.apply(Event::TurnStarted("turn".into()), now);
    assert_eq!(t.entries[0], Entry::User("edit".into(), true));
    t.apply(
        Event::Receipt(Receipt::change(
            "Cu",
            Stage::Normalize,
            vec!["E₀: Auto → 8979 eV".into()],
            1,
        )),
        now,
    );
    t.apply(completed("turn", None), now);
    let revision = t.revision();
    t.update_receipts(|r| {
        let mut r = r.clone();
        r.state = "Recalculation complete".into();
        r
    });
    assert!(t.revision() > revision);
    let revision = t.revision();
    t.update_receipts(|r| r.clone());
    assert_eq!(t.revision(), revision);
    assert!(t.conversation(now).contains("You · Edit"));
    assert!(t.conversation(now).contains("Recalculation complete"));
    t.apply(Event::Send("review".into(), false), now);
    assert!(t.conversation(now).contains("You · Review"));
}

#[test]
fn revisions_track_updates_to_earlier_entries_and_ignore_duplicates() {
    let now = NOW;
    let mut t = active(now);
    t.apply(item("A", Update::Delta("first".into())), now);
    t.apply(tool("X"), now);
    t.apply(item("B", Update::Delta("last".into())), now);
    let revision = t.revision();
    let len = t.entries.len();
    // A same-length replacement in an earlier row still changes content.
    assert!(t.apply(item("A", Update::Completed(Some("other".into()))), now));
    assert_eq!(t.revision(), revision + 1);
    assert_eq!(t.entries.len(), len);
    assert!(t.apply(finished("X", None), now));
    assert_eq!(t.revision(), revision + 2);
    assert!(!t.apply(item("A", Update::Completed(Some("other".into()))), now));
    assert!(!t.apply(item("B", Update::Delta(String::new())), now));
    assert!(!t.apply(finished("X", None), now));
    assert!(!t.apply(completed("stale", None), now));
    let _ = t.conversation(now + 1000);
    assert_eq!(t.revision(), revision + 2);
    assert!(t.apply(completed("turn", None), now));
    assert_eq!(t.revision(), revision + 3);
}

#[test]
fn revisions_track_waiting_removal_and_disconnection_early_returns() {
    let now = NOW;
    let mut t = Transcript::default();
    assert_eq!(t.revision(), 0);
    assert!(!t.apply(Event::Reconnected, now));
    assert_eq!(t.revision(), 0);
    t.apply(Event::Send("hello".into(), false), now);
    t.apply(Event::TurnStarted("turn".into()), now);
    assert_eq!(t.revision(), 2);
    let _ = t.conversation(now + 20_000);
    assert_eq!(t.revision(), 2);
    t.apply(item("A", Update::Started), now);
    let revision = t.revision();
    assert!(t.apply(item("A", Update::Completed(None)), now));
    assert_eq!(t.revision(), revision + 1);
    assert!(!t.apply(item("A", Update::Completed(None)), now));
    assert_eq!(t.revision(), revision + 1);
    assert!(t.apply(Event::Disconnected, now));
    assert_eq!(t.revision(), revision + 2);
    assert!(!t.apply(Event::Disconnected, now));
    assert_eq!(t.revision(), revision + 2);
    assert!(t.apply(Event::Reconnected, now));
    assert_eq!(t.revision(), revision + 3);
}

#[test]
fn interleaved_calls_close_only_matching_id() {
    let now = NOW;
    let mut t = active(now);
    for id in ["X", "Y"] {
        assert!(t.apply(tool(id), now));
    }
    assert!(!t.apply(tool("X"), now));
    assert!(!t.apply(finished("unknown", None), now));
    assert!(t.apply(finished("X", None), now));
    assert!(t.entries[1].text(now).ends_with("· done"));
    assert_eq!(t.entries[2].text(now), "Inspecting…");
    assert!(t.apply(finished("Y", Some("oops")), now));
    assert!(!t.apply(finished("Y", None), now));
    assert!(t.entries[2].text(now).ends_with("· failed: oops"));
}

#[test]
fn items_preserve_order_replace_and_deduplicate() {
    let now = NOW;
    let mut t = active(now);
    t.apply(item("A", Update::Started), now);
    t.apply(item("B", Update::Started), now);
    t.apply(item("B", Update::Delta("second".into())), now);
    t.apply(item("A", Update::Delta("fir".into())), now);
    t.apply(item("A", Update::Delta("st".into())), now);
    assert!(t.conversation(now).contains("first"));
    assert!(t.apply(item("A", Update::Completed(Some("final".into()))), now));
    assert!(!t.apply(item("A", Update::Completed(Some("final".into()))), now));
    assert_eq!(t.entries.len(), 3);
    assert_eq!(t.entries[1].text(now), "final");
    assert_eq!(t.entries[2].text(now), "second");
    t.apply(item("empty", Update::Started), now);
    assert!(!t.apply(item("empty", Update::Delta(String::new())), now));
    assert!(!t.apply(item("empty", Update::Completed(None)), now));
    t.apply(
        Event::Item {
            turn: "turn".into(),
            id: "R".into(),
            kind: ItemKind::Thinking,
            update: Update::Delta("reason".into()),
        },
        now,
    );
    assert!(matches!(&t.entries[4], Entry::Thinking { text, .. } if text == "reason"));
}

#[test]
fn empty_completion_reports_waiting_removal_once() {
    let now = NOW;
    for value in [None, Some(String::new())] {
        let mut t = active(now);
        assert!(t.apply(item("A", Update::Started), now));
        assert!(!t.apply(item("A", Update::Delta(String::new())), now));
        assert_eq!(t.entries.len(), 3);
        assert!(t.apply(item("A", Update::Completed(value.clone())), now));
        assert_eq!(t.entries.len(), 2);
        assert!(!t.apply(item("A", Update::Completed(value)), now));
    }
}

#[test]
fn error_and_stale_events() {
    let now = NOW;
    let mut t = active(now);
    assert!(!t.accepts("old"));
    assert!(!t.apply(completed("old", None), now));
    assert!(!t.apply(Event::TurnStarted("old".into()), now));
    assert!(!t.apply(
        Event::Item {
            turn: "old".into(),
            id: "A".into(),
            kind: ItemKind::Assistant,
            update: Update::Delta("stale".into())
        },
        now
    ));
    assert!(t.apply(completed("turn", Some("failed")), now));
    assert!(!t.busy);
    assert_eq!(
        t.entries.last(),
        Some(&Entry::Status(Status::Error("failed".into())))
    );
    assert!(!t.apply(item("A", Update::Completed(Some("late".into()))), now));
    t.apply(Event::Send("next".into(), false), now);
    t.apply(Event::TurnStarted("next".into()), now);
    assert!(!t.apply(item("A", Update::Delta("old".into())), now));
    assert!(!t.apply(tool("X"), now));
    assert!(!t.apply(finished("X", None), now));
}

#[test]
fn stop_before_ack_and_timeout_or_completion() {
    let now = NOW;
    for timeout_first in [false, true] {
        let mut t = Transcript::default();
        t.apply(Event::Send("hello".into(), false), now);
        t.apply(Event::StopRequested, now);
        assert!(!t.busy && t.stop_pending);
        if timeout_first {
            t.apply(Event::StopTimeout, now);
        }
        t.apply(Event::TurnStarted("turn".into()), now);
        assert!(!t.busy);
        assert!(!t.apply(tool("late"), now));
        t.apply(completed("turn", None), now);
        assert!(!t.apply(Event::StopTimeout, now));
        assert_eq!(
            t.entries,
            vec![
                Entry::User("hello".into(), false),
                Entry::Status(Status::Stopped)
            ]
        );
    }
}

#[test]
fn assistant_analysis_close_stops_neutrally_and_ignores_late_events() {
    let now = NOW;
    for acknowledged in [false, true] {
        for stop_pending in [false, true] {
            let mut t = Transcript::default();
            t.apply(Event::Send("keep my question".into(), false), now);
            if acknowledged {
                t.apply(Event::TurnStarted("turn".into()), now);
                t.apply(item("A", Update::Delta("partial reply".into())), now);
                t.apply(tool("running"), now);
            }
            if stop_pending {
                t.apply(Event::StopRequested, now);
            }
            assert!(t.apply(Event::AnalysisClosed, now));
            assert!(!t.busy && !t.stop_pending && !t.awaiting_ack);
            assert!(t.turn.is_none());
            assert_eq!(t.entries.last(), Some(&Entry::Status(Status::Stopped)));
            let copied = t.conversation(now);
            assert!(copied.contains("keep my question"));
            assert!(!copied.contains("Error:") && !copied.contains("failed:"));
            assert!(!copied.contains("Preparing") && !copied.contains("Waiting"));
            if acknowledged {
                assert!(copied.contains("partial reply"));
                assert!(copied.contains("Inspecting… · stopped"));
            }
            let revision = t.revision();
            assert!(!t.apply(Event::Disconnected, now));
            assert!(!t.apply(Event::AnalysisClosed, now));
            assert!(!t.apply(Event::TurnStarted("late".into()), now));
            assert!(!t.apply(completed("turn", Some("late error")), now));
            assert!(!t.apply(item("A", Update::Delta("late text".into())), now));
            assert!(!t.apply(finished("running", None), now));
            assert!(!t.apply(Event::StopTimeout, now));
            assert_eq!(t.revision(), revision);
            assert_eq!(t.conversation(now), copied);
        }
    }
}

#[test]
fn assistant_idle_analysis_close_preserves_history_and_real_disconnect_errors() {
    let now = NOW;
    let mut idle = Transcript::default();
    assert!(idle.apply(Event::AnalysisClosed, now));
    assert!(idle.entries.is_empty());

    let mut done = active(now);
    done.apply(item("A", Update::Delta("finished reply".into())), now);
    done.apply(completed("turn", None), now);
    let copied = done.conversation(now);
    assert!(done.apply(Event::AnalysisClosed, now));
    assert_eq!(done.conversation(now), copied);

    let mut lost = active(now);
    lost.apply(Event::Disconnected, now);
    assert_eq!(
        lost.entries.last(),
        Some(&Entry::Status(Status::Error("Connection lost".into())))
    );
}

#[test]
fn labels_and_reconnection() {
    assert_eq!(waiting_label(3), "Waiting for response · 3 s");
    assert_eq!(waiting_label(20), "Still waiting · 20 s");
    assert_eq!(waiting_label(15), "Still waiting · 15 s");
    let now = NOW;
    let mut t = active(now);
    assert_eq!(
        t.entries[1].text(now + 3000),
        "Waiting for response · 3 s"
    );
    assert!(!t.apply(Event::Reconnected, now));
    t.apply(Event::Disconnected, now);
    assert!(!t.apply(Event::Disconnected, now));
    assert!(!t.busy);
    assert!(t.apply(Event::Reconnected, now));
    assert_eq!(
        t.entries.last().map(|e| e.text(now)).as_deref(),
        Some("Connection restored. The next message starts a new conversation.")
    );
    assert!(!t.apply(Event::Reconnected, now));
    t.apply(Event::Send("next".into(), false), now);
    t.apply(Event::Failed("preparing failed".into()), now);
    assert!(!t.busy);
    t.apply(Event::Send("cancel preparation".into(), false), now);
    t.apply(Event::StopRequested, now);
    t.apply(Event::StopTimeout, now);
    assert!(t.apply(Event::Send("try again".into(), false), now));
}

#[test]
fn waiting_label_counts_whole_seconds_and_clock_skew() {
    let mut t = active(NOW);
    assert_eq!(t.entries[1].text(NOW + 1999), "Waiting for response · 1 s");
    assert_eq!(t.entries[1].text(NOW - 5), "Waiting for response · 0 s");
    assert_eq!(t.entries[1].text(NOW + 15_000), "Still waiting · 15 s");
    assert!(t.apply(Event::StopRequested, NOW));
    assert!(t.entries.iter().all(|e| !matches!(e, Entry::Status(Status::Waiting { .. }))));
}

#[test]
fn ignored_events_leave_revision_and_entries_alone() {
    let mut t = active(NOW);
    let before = t.entries.clone();
    let revision = t.revision();
    assert!(!t.apply(Event::Send("again".into(), false), NOW));
    assert!(!t.apply(Event::StopTimeout, NOW));
    assert!(!t.apply(Event::Reconnected, NOW));
    assert_eq!(t.entries, before);
    assert_eq!(t.revision(), revision);
}

#[test]
fn earlier_turns_are_not_rewritten() {
    let mut t = active(NOW);
    t.apply(item("A", Update::Delta("one".into())), NOW);
    t.apply(tool("X"), NOW);
    t.apply(completed("turn", None), NOW);
    let first_turn = t.entries.clone();
    t.apply(Event::Send("second".into(), false), NOW);
    t.apply(Event::TurnStarted("turn2".into()), NOW);
    t.apply(
        Event::Item {
            turn: "turn2".into(),
            id: "A".into(),
            kind: ItemKind::Assistant,
            update: Update::Completed(Some("two".into())),
        },
        NOW,
    );
    t.apply(Event::AnalysisClosed, NOW);
    assert_eq!(&t.entries[..first_turn.len()], &first_turn[..]);
    assert!(matches!(
        &t.entries[2],
        Entry::Activity { state: ActivityState::Failed(reason), .. }
            if reason == "Turn ended before the tool responded"
    ));
}

#[test]
fn receipt_entry_text_and_wrapping_revision() {
    let mut t = Transcript::default();
    t.revision = u64::MAX;
    assert!(t.apply(Event::Receipt(Receipt::job("Fit complete".into(), Some(1))), NOW));
    assert_eq!(t.revision(), 0);
    assert_eq!(t.entries[0].text(NOW), "Fit complete");
    assert_eq!(t.conversation(NOW), "## Receipt\n\nFit complete\n");
}

#[test]
fn refreshing_settles_receipts_and_advances_the_revision_once_each() {
    let now = NOW;
    let mut t = Transcript::default();
    t.apply(Event::Send("edit".into(), true), now);
    t.apply(Event::TurnStarted("turn".into()), now);
    let mut scheduled = Receipt::change("/data/Cu.dat", Stage::Normalize, vec![], 1);
    scheduled.processing = Some((7, 1));
    t.apply(Event::Receipt(scheduled), now);
    t.apply(Event::Receipt(Receipt::change("/data/Cu.dat", Stage::Fit, vec![], 1)), now);
    let status = StudioStatus {
        model: 0,
        journal_revision: 1,
        current_path: "/data/Cu.dat".into(),
        params_fingerprint: 7,
        load_running: false,
        recompute_dirty: false,
        generation: 2,
        spectrum_fingerprint: 7,
        spectrum_is_current: true,
        plots_stale: false,
        fit_loading: true,
        fit_failed: false,
    };
    let revision = t.revision();
    t.refresh_receipts(&status);
    // The processing receipt settled; the model receipt still waits.
    assert_eq!(t.revision(), revision + 1);
    let states: Vec<String> = t
        .entries
        .iter()
        .filter_map(|e| match e {
            Entry::Receipt(r) => Some(r.state.clone()),
            _ => None,
        })
        .collect();
    assert_eq!(states, ["Recalculation complete", "Recalculating…"]);
    let revision = t.revision();
    t.refresh_receipts(&status);
    assert_eq!(t.revision(), revision);
}
