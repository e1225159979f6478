use rexafs_gui::group_menu::apply_rename;
use rexafs_gui::group_menu::DetectionMode::{Fluorescence, MuColumn, Reference, Transmission};
use rexafs_gui::group_menu::{
    menu_items, missing_channels, validate_label, DetectionMode, Item, MenuContext, SiblingImport,
    MENU_LEN,
};

#[test]
fn missing_channel_rules_resolve_auto_independently_of_the_menu_target() {
    // Right-click Reference: the Auto primary is still Transmission.
    assert_eq!(
        missing_channels(
            &[Transmission, Fluorescence, Reference],
            &[Transmission, Reference]
        ),
        vec![
            (Fluorescence, None),
            (MuColumn, Some("Required columns were not detected"))
        ]
    );
    assert!(missing_channels(&[], &[Transmission, Fluorescence, Reference, MuColumn]).is_empty());
    assert!(missing_channels(&[], &[])
        .iter()
        .all(|(_, reason)| reason.is_some()));
}

#[test]
fn rename_validation_trims_rejects_empty_and_allows_duplicates() {
    for label in ["", " \t\n", "\u{3000}"] {
        assert!(validate_label(label).is_err());
    }
    assert_eq!(
        validate_label("  Cu foil 日本語  "),
        Ok("Cu foil 日本語".into())
    );
    assert_eq!(validate_label("Cu foil"), validate_label("Cu foil"));
}

#[test]
fn menu_rules_distinguish_target_capabilities_from_project_marks() {
    let mut context = MenuContext {
        spectrum: true,
        file: true,
        locked: true,
        marks: 2,
        marked_absorption: 2,
        absorption: true,
        ..Default::default()
    };
    let items = menu_items(&context);
    for item in [
        Item::Current,
        Item::Mark,
        Item::Rename,
        Item::Colors,
        Item::Duplicate,
        Item::Lock,
        Item::Remap,
        Item::Channels,
        Item::Standard,
        Item::Export,
        Item::Merge,
        Item::Align,
    ] {
        assert!(
            items.iter().find(|i| i.item == item).unwrap().enabled,
            "{item:?}"
        );
    }
    for item in [Item::Inputs, Item::Reveal, Item::Remove, Item::Compare] {
        let entry = items.iter().find(|i| i.item == item).unwrap();
        assert!(!entry.enabled);
        assert!(entry.reason.is_some());
    }
    assert_eq!(
        items.iter().find(|i| i.item == Item::Lock).unwrap().label,
        "Unlock processing"
    );
    context.incompatible_marks = true;
    context.marked_absorption = 0;
    context.absorption = false;
    context.file = false;
    context.derived = true;
    context.operation = true;
    context.marked = true;
    context.source_exists = true;
    let items = menu_items(&context);
    for item in [
        Item::Merge,
        Item::Align,
        Item::Standard,
        Item::Remap,
        Item::Channels,
    ] {
        assert!(!items.iter().find(|i| i.item == item).unwrap().enabled);
    }
    for item in [Item::Inputs, Item::Remove, Item::Reveal] {
        assert!(items.iter().find(|i| i.item == item).unwrap().enabled);
    }
    assert_eq!(
        items.iter().find(|i| i.item == Item::Mark).unwrap().label,
        "Unmark"
    );
    let empty = menu_items(&MenuContext::default());
    assert!(empty
        .iter()
        .filter(|i| i.enabled)
        .all(|i| matches!(i.item, Item::Current | Item::Rename)));
}

#[test]
fn menu_order_labels_and_reasons() {
    let context = MenuContext {
        spectrum: true,
        marks: 1,
        ..Default::default()
    };
    let items = menu_items(&context);
    assert_eq!(items.len(), MENU_LEN);
    assert_eq!(items[0].item, Item::Current);
    assert_eq!(items[15].item, Item::Compare);
    let merge = items.iter().find(|i| i.item == Item::Merge).unwrap();
    assert_eq!(merge.label, "Merge 1 marked…");
    assert_eq!(merge.reason, Some("Mark at least two spectra"));
    let remap = items.iter().find(|i| i.item == Item::Remap).unwrap();
    assert_eq!(remap.reason, Some("No source columns"));
    let incompatible = MenuContext {
        incompatible_marks: true,
        marks: 0,
        ..Default::default()
    };
    let merge = menu_items(&incompatible)
        .into_iter()
        .find(|i| i.item == Item::Merge)
        .unwrap();
    assert_eq!(merge.reason, Some("Marked quantities are incompatible"));
}

#[test]
fn label_trimming_keeps_inner_space() {
    assert_eq!(validate_label("\u{a0} a  b \u{2028}"), Ok("a  b".into()));
    assert_eq!(validate_label("x"), Ok("x".into()));
    assert_eq!(
        validate_label("\u{85}\u{2009}"),
        Err("A group label cannot be empty")
    );
}

#[test]
fn committing_default_labels_is_noop_or_removes_custom_metadata() {
    let id = 7;
    let mut labels = std::collections::BTreeMap::new();
    let full = "Fluorescence · file.dat";
    let row = "Fluorescence";
    for default in [full, row] {
        assert!(apply_rename(&mut labels, id, default.into(), full, row).is_none());
        assert!(labels.is_empty());
        labels.insert(id, "custom".to_string());
        let change = apply_rename(&mut labels, id, default.into(), full, row).unwrap();
        assert_eq!(change.id, id);
        assert_eq!(change.before.as_deref(), Some("custom"));
        assert_eq!(change.after, None);
        assert!(labels.is_empty());
    }
    assert!(apply_rename(&mut labels, id, "custom".into(), full, row).is_some());
    assert!(apply_rename(&mut labels, id, "custom".into(), full, row).is_none());
    assert_eq!(labels.get(&id).map(String::as_str), Some("custom"));
}

#[test]
fn renaming_records_before_and_after() {
    let mut labels = std::collections::BTreeMap::new();
    labels.insert(1u64, "Cu foil".to_string());
    labels.insert(2u64, "other".to_string());
    let change = apply_rename(&mut labels, 1, "Cu K foil".into(), "a", "b").unwrap();
    assert_eq!(change.before.as_deref(), Some("Cu foil"));
    assert_eq!(change.after.as_deref(), Some("Cu K foil"));
    assert_eq!(labels.get(&1).map(String::as_str), Some("Cu K foil"));
    assert_eq!(labels.get(&2).map(String::as_str), Some("other"));
    let change = apply_rename(&mut labels, 3, "new".into(), "a", "b").unwrap();
    assert_eq!(change.before, None);
    assert_eq!(labels.len(), 3);
}

#[test]
fn context_resolves_each_auto_siblings_own_mapping() {
    // Detection of "# energy i0 it ir roi1": every channel has columns; the
    // Auto primary maps roi1 as a mu column, a plain Auto import resolves
    // to transmission.
    let available = vec![Transmission, Fluorescence, Reference, MuColumn];
    let primary = SiblingImport {
        mode: DetectionMode::Auto,
        detected: Some(MuColumn),
    };
    let reference = SiblingImport {
        mode: Reference,
        detected: None,
    };
    let mut context = MenuContext {
        file: true,
        ..Default::default()
    };
    context.detect_channels(Some(&available), &vec![primary, reference]);
    assert!(context.channels.contains(&(Transmission, None)));
    assert!(!context
        .channels
        .iter()
        .any(|(m, _)| *m == MuColumn || *m == Reference));
    let auto = SiblingImport {
        mode: DetectionMode::Auto,
        detected: Some(Transmission),
    };
    context.detect_channels(Some(&available), &vec![primary, reference, auto]);
    assert!(!context
        .channels
        .iter()
        .any(|(m, _)| *m == Transmission || *m == MuColumn));
    assert!(context.file);
}

#[test]
fn failed_detections_leave_channels_missing_and_disabled() {
    let failed = SiblingImport {
        mode: DetectionMode::Auto,
        detected: None,
    };
    let mut context = MenuContext::default();
    context.detect_channels(None, &vec![failed]);
    assert_eq!(
        context.channels,
        vec![
            (Transmission, Some("Required columns were not detected")),
            (Fluorescence, Some("Required columns were not detected")),
            (Reference, Some("Required columns were not detected")),
            (MuColumn, Some("Required columns were not detected")),
        ]
    );
}
