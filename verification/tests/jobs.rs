use rexafs_gui::jobs::{structure_outcome, StructureJob, StructureStatus};

fn idle() -> StructureStatus {
    StructureStatus {
        search_running: false,
        fetch_running: false,
        paths_running: false,
        search_error: None,
        status: "Ready".into(),
        has_paths: true,
        structure_loaded: true,
    }
}

#[test]
fn running_jobs_are_waited_for() {
    let s = StructureStatus { search_running: true, ..idle() };
    assert!(structure_outcome(StructureJob::Search, &s).is_none());
    assert!(structure_outcome(StructureJob::Choose, &s).is_some());
    let s = StructureStatus { paths_running: true, ..idle() };
    assert!(structure_outcome(StructureJob::Calculate, &s).is_none());
    let s = StructureStatus { fetch_running: true, ..idle() };
    assert!(structure_outcome(StructureJob::Choose, &s).is_none());
}

#[test]
fn finished_jobs_report_errors_or_success() {
    assert_eq!(structure_outcome(StructureJob::Search, &idle()), Some(Ok(())));
    let s = StructureStatus { search_error: Some("No match".into()), ..idle() };
    assert_eq!(structure_outcome(StructureJob::Calculate, &s), Some(Err("No match".into())));
    let s = StructureStatus { status: "Path calculation failed: FEFF".into(), ..idle() };
    assert_eq!(
        structure_outcome(StructureJob::Calculate, &s),
        Some(Err("Path calculation failed: FEFF".into()))
    );
    assert_eq!(structure_outcome(StructureJob::Search, &s), Some(Ok(())));
    let s = StructureStatus { has_paths: false, ..idle() };
    assert_eq!(structure_outcome(StructureJob::Calculate, &s), Some(Err("Ready".into())));
    let s = StructureStatus { structure_loaded: false, ..idle() };
    assert_eq!(
        structure_outcome(StructureJob::Choose, &s),
        Some(Err("Structure could not be loaded".into()))
    );
    assert_eq!(structure_outcome(StructureJob::Calculate, &s), Some(Ok(())));
}
