use rexafs_gui::requests::{catalog_settled, pending_blocks_run};
use std::collections::BTreeMap;

#[test]
fn assistant_pending_models_do_not_block_run() {
    let mut pending = BTreeMap::new();
    assert!(!pending_blocks_run(&pending));

    pending.insert(1, "model/list".into());
    assert!(!pending_blocks_run(&pending));
    // A subsequent catalog page has a new request ID but the same method.
    pending.remove(&1);
    pending.insert(2, "model/list".into());
    assert!(!pending_blocks_run(&pending));

    for method in ["thread/start", "turn/start"] {
        pending.insert(3, method.into());
        assert!(pending_blocks_run(&pending));
        pending.remove(&3);
        assert!(!pending_blocks_run(&pending));
    }
}

#[test]
fn assistant_catalog_warning_and_resume_wait_for_signed_in_settled_catalog() {
    let mut pending = BTreeMap::new();
    assert!(!catalog_settled(false, false, &pending));
    assert!(!catalog_settled(false, true, &pending));
    assert!(!catalog_settled(true, false, &pending));
    assert!(catalog_settled(true, true, &pending));

    pending.insert(1, "model/list".into());
    assert!(!catalog_settled(true, true, &pending));
    pending.remove(&1);
    // A later cursor page also keeps the warning hidden.
    pending.insert(2, "model/list".into());
    assert!(!catalog_settled(true, true, &pending));
    pending.remove(&2);
    // A successful empty list or an error both remove the request before
    // the resume check. Neither needs a model or a saved preference.
    assert!(catalog_settled(true, true, &pending));
    // Completion (including failure) settles the catalog; other requests do not block it.
    pending.insert(3, "turn/start".into());
    assert!(catalog_settled(true, true, &pending));
    assert!(!catalog_settled(false, true, &pending));
}

#[test]
fn thread_resume_blocks_run() {
    let mut pending = BTreeMap::new();
    pending.insert(9, "thread/resume".to_string());
    pending.insert(4, "model/list".to_string());
    assert!(pending_blocks_run(&pending));
    assert!(!catalog_settled(true, true, &pending));
}
