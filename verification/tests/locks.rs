use rexafs_gui::locks::{migrate_standalone_lock, processing_locked, restore_standalone_lock, NO_ENTRY};
use std::collections::BTreeSet;

#[test]
fn standalone_lock_survives_restore_and_migration() {
    let mut frozen = BTreeSet::new();
    assert!(!processing_locked(Some(NO_ENTRY), &frozen));
    restore_standalone_lock(&mut frozen, true);
    assert!(processing_locked(Some(NO_ENTRY), &frozen));
    assert!(!processing_locked(None, &frozen));
    migrate_standalone_lock(&mut frozen, 3);
    assert!(processing_locked(Some(3), &frozen));
    assert!(!processing_locked(Some(NO_ENTRY), &frozen));
    // Migrating again moves nothing.
    migrate_standalone_lock(&mut frozen, 5);
    assert!(!processing_locked(Some(5), &frozen));
    assert!(processing_locked(Some(3), &frozen));
}

#[test]
fn restoring_an_unlocked_standalone_clears_only_its_lock() {
    let mut frozen = BTreeSet::from([NO_ENTRY, 1]);
    restore_standalone_lock(&mut frozen, false);
    assert_eq!(frozen, BTreeSet::from([1]));
}
