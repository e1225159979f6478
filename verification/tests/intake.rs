use rexafs_gui::intake::{signal_label, SignalMapping};
use rexafs_gui::intake::{batch_status, IntakeBatch, IntakeSource};
use rexafs_gui::json::Json;

fn member<'a>(v: &'a Json, key: &str) -> &'a Json {
    match v {
        Json::Object(members) => members
            .iter()
            .find(|(k, _)| k == key)
            .map(|(_, v)| v)
            .unwrap_or(&Json::Null),
        _ => &Json::Null,
    }
}

fn source(pending: bool, failed: bool, created: &[&str]) -> IntakeSource {
    IntakeSource {
        pending,
        failed,
        created: created.iter().map(|s| s.to_string()).collect(),
    }
}

/// A batch just queued for one file: nothing read yet.
fn queued() -> IntakeBatch {
    IntakeBatch {
        sources: vec![source(false, false, &[])],
        finished: false,
        stopped: false,
        receipt: Json::Str("1 file queued".into()),
    }
}

#[test]
fn queued_intake_is_not_reported_as_imported() {
    let history = vec![queued()];
    let id = 0;
    let status = batch_status(&history, id).unwrap();
    assert_eq!(*member(&status, "intake_finished"), Json::Bool(false));
    assert_eq!(*member(&status, "created_groups"), Json::Number("0".into()));
    assert!(batch_status(&history, id + 1).is_err());
}

#[test]
fn status_counts_review_failures_and_created_groups() {
    let batch = IntakeBatch {
        sources: vec![
            source(true, false, &[]),
            source(false, true, &[]),
            source(false, false, &["g1", "g2"]),
        ],
        finished: true,
        stopped: true,
        receipt: Json::Null,
    };
    let status = batch_status(&vec![queued(), batch], 1).unwrap();
    assert_eq!(*member(&status, "batch_id"), Json::Number("1".into()));
    assert_eq!(*member(&status, "needs_review"), Json::Number("1".into()));
    assert_eq!(*member(&status, "failed_files"), Json::Number("1".into()));
    assert_eq!(*member(&status, "created_groups"), Json::Number("2".into()));
    assert_eq!(
        *member(&status, "group_ids"),
        Json::Array(vec![Json::Str("g1".into()), Json::Str("g2".into())])
    );
    assert_eq!(*member(&status, "stopped"), Json::Bool(true));
    assert_eq!(
        *member(&status, "next_step"),
        Json::Str("Review channels and column mappings in the rexafs import panel.".into())
    );
    let keys: Vec<&str> = match &status {
        Json::Object(m) => m.iter().map(|(k, _)| k.as_str()).collect(),
        _ => vec![],
    };
    assert_eq!(
        keys,
        [
            "batch_id",
            "created_groups",
            "failed_files",
            "group_ids",
            "intake_finished",
            "needs_review",
            "next_step",
            "stopped",
            "summary"
        ]
    );
}

#[test]
fn next_step_follows_review_then_completion() {
    let status = batch_status(&vec![queued()], 0).unwrap();
    assert_eq!(
        *member(&status, "next_step"),
        Json::Str(
            "Intake is still running or queued; check again before claiming completion.".into()
        )
    );
    let mut done = queued();
    done.finished = true;
    let status = batch_status(&vec![done], 0).unwrap();
    assert_eq!(
        *member(&status, "next_step"),
        Json::Str(
            "Use the overview to inspect available spectra and their processing state.".into()
        )
    );
    assert_eq!(*member(&status, "summary"), Json::Str("1 file queued".into()));
    assert_eq!(
        batch_status(&vec![], 0).unwrap_err(),
        "Unknown import batch_id"
    );
}

#[test]
fn at_most_a_hundred_group_ids_are_listed() {
    let names: Vec<String> = (0..105).map(|i| format!("g{i}")).collect();
    let refs: Vec<&str> = names.iter().map(|s| s.as_str()).collect();
    let batch = IntakeBatch {
        sources: vec![source(false, false, &refs)],
        finished: true,
        stopped: false,
        receipt: Json::Null,
    };
    let status = batch_status(&vec![batch], 0).unwrap();
    assert_eq!(*member(&status, "created_groups"), Json::Number("105".into()));
    match member(&status, "group_ids") {
        Json::Array(ids) => {
            assert_eq!(ids.len(), 100);
            assert_eq!(ids[99], Json::Str("g99".into()));
        }
        other => panic!("group_ids is not an array: {other:?}"),
    }
}

#[test]
fn signal_labels_name_standard_channels_and_describe_others() {
    assert_eq!(signal_label("reference", SignalMapping::Ratio), "Reference");
    assert_eq!(signal_label("transmission", SignalMapping::Direct), "Transmission");
    assert_eq!(signal_label("fluorescence", SignalMapping::Direct), "Fluorescence");
    assert_eq!(signal_label("mu", SignalMapping::Direct), "Stored signal · mu");
    assert_eq!(signal_label("I1/I0", SignalMapping::Transmission), "Transmission · I1/I0");
    assert_eq!(signal_label("PIPS", SignalMapping::Ratio), "Fluorescence / yield · PIPS");
}
