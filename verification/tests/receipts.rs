use rexafs_gui::receipts::change_header;
use rexafs_gui::settings::{diff, Setting};
use rexafs_gui::json::Json;
use rexafs_gui::receipts::{
    changes_allowed, completion, history_result_notice, navigation_target, processing_scope_label,
    requires_edit, same_receipt, scope_label, select_history_result, undo_eligible, JournalStatus,
    Navigation, Receipt, Stage, StudioStatus,
};

#[derive(Debug)]
struct FitProvenance {
    #[allow(dead_code)]
    label: String,
    #[allow(dead_code)]
    group_id: Option<String>,
    #[allow(dead_code)]
    path: String,
    #[allow(dead_code)]
    params_fingerprint: u64,
    #[allow(dead_code)]
    model_fingerprint: u64,
}

/// The catalog entry that the expected lines rely on: E₀ is labelled with its unit.
fn catalog() -> Vec<Setting> {
    vec![Setting {
        key: "e0".to_string(),
        label: "E₀ (eV)".to_string(),
        section: "Normalize".to_string(),
    }]
}

fn obj(members: Vec<(&str, Json)>) -> Json {
    Json::Object(members.into_iter().map(|(k, v)| (k.to_string(), v)).collect())
}

fn num(t: &str) -> Json {
    Json::Number(t.to_string())
}

fn text(t: &str) -> Json {
    Json::Str(t.to_string())
}

#[test]
fn parameter_receipt_ignores_old_preview_error_but_waits_for_loading_preview() {
    for loading in [false, true] {
        let mut receipt = Receipt::change("Cu", Stage::Fit, vec![], 1);
        receipt.finish_parameter_edit(loading);
        // Match refresh_receipts: only pending receipts consult preview errors.
        if receipt.state == "Recalculating…" {
            if let Some(state) = completion(true, loading, true, true) {
                receipt.state = state.into();
            }
        }
        assert_eq!(
            receipt.state,
            if loading {
                "Recalculating…"
            } else {
                "Recalculation complete"
            }
        );
    }
}

#[test]
fn history_selection_discards_newer_provenance_and_identifies_shown_entry() {
    let mut provenance = Some(FitProvenance {
        label: "fit 2".into(),
        group_id: None,
        path: "Cu".into(),
        params_fingerprint: 2,
        model_fingerprint: 2,
    });
    let mut selected = Some(2);
    assert_eq!(history_result_notice(true, selected), None);
    select_history_result(&mut provenance, &mut selected, 1);
    assert!(provenance.is_none());
    assert_eq!(selected, Some(1));
    assert_eq!(
        history_result_notice(provenance.is_some(), selected).as_deref(),
        Some("Viewing history entry 1")
    );
    assert_eq!(history_result_notice(false, None), None);
}

#[test]
fn processing_scope_and_navigation_cover_non_catalog_current_spectrum() {
    assert_eq!(processing_scope_label(Some(0)), "This spectrum");
    assert_eq!(
        processing_scope_label(None),
        "Shared across all spectra without overrides"
    );
    let current = "/data/Cu.dat";
    assert_eq!(navigation_target("/data/Cu.dat", current, None), Ok(None));
    assert_eq!(
        navigation_target("/data/Cu.dat", current, Some(0)),
        Ok(Some(0))
    );
    assert_eq!(
        navigation_target("/data/Fe.dat", current, Some(1)),
        Ok(Some(1))
    );
    assert!(navigation_target("/data/Fe.dat", current, None).is_err());
}

#[test]
fn every_tool_has_review_or_edit_classification() {
    let edit = [
        "xray_choose_structure",
        "xray_calculate_paths",
        "xray_select_paths",
        "xray_set_fit_ranges",
        "xray_set_fit_parameter",
        "xray_set_processing",
        "xray_run_fit",
    ];
    let review = [
        "xray_get_state",
        "xray_get_plots",
        "xray_navigate",
        "xray_set_layout",
        "xray_search_structures",
    ];
    for name in edit.iter().chain(review.iter()) {
        assert!(edit.contains(name) || review.contains(name));
        assert_eq!(requires_edit(name), edit.contains(name));
    }
    assert!(requires_edit("xray_future_tool"));
}

#[test]
fn edit_revoked_before_apply_is_rejected_and_enabling_waits_for_send() {
    assert!(changes_allowed(true, true, true));
    assert!(!changes_allowed(false, true, true));
    assert!(!changes_allowed(true, false, true));
    assert!(!changes_allowed(true, true, false));
}

#[test]
fn receipt_values_units_scope_and_completion() {
    let settings = catalog();
    assert_eq!(
        diff(
            &obj(vec![("e0", Json::Null), ("kmin", num("2")), ("same", num("1"))]),
            &obj(vec![("e0", num("8979")), ("kmin", num("3")), ("same", num("1"))]),
            &settings
        ),
        ["E₀: Auto → 8979 eV", "kmin: 2 → 3 Å⁻¹"]
    );
    assert_eq!(
        diff(
            &obj(vec![("paths", Json::Array(vec![text("a")]))]),
            &obj(vec![("paths", Json::Array(vec![text("b")]))]),
            &settings
        ),
        ["paths: [\"a\"] → [\"b\"]"]
    );
    assert_eq!(
        diff(
            &obj(vec![(
                "paths",
                Json::Array(vec![obj(vec![("e0", text("0")), ("enabled", Json::Bool(false))])])
            )]),
            &obj(vec![(
                "paths",
                Json::Array(vec![obj(vec![("e0", text("shift")), ("enabled", Json::Bool(true))])])
            )]),
            &settings
        ),
        [
            "paths[0].E₀: 0 → shift eV",
            "paths[0].enabled: false → true"
        ]
    );
    assert_eq!(scope_label(None), "This spectrum");
    assert_eq!(scope_label(Some(3)), "Shared across 3 datasets");
    assert_eq!(completion(true, true, false, false), None);
    assert_eq!(completion(true, false, false, false), None);
    assert_eq!(
        completion(true, false, true, false),
        Some("Recalculation complete")
    );
    assert_eq!(
        completion(true, false, false, true),
        Some("Recalculation failed")
    );
    assert_eq!(
        completion(false, true, false, false),
        Some("Superseded by a later change")
    );
    let r = Receipt::change(
        "/data/Cu.dat",
        Stage::Normalize,
        vec!["E₀: Auto → 8979 eV".into()],
        1,
    );
    assert!(r
        .text()
        .contains("Cu.dat · Normalize\nE₀: Auto → 8979 eV\nThis spectrum\nRecalculating…"));
}

#[test]
fn receipt_undo_retires_on_manual_edit_undo_redo_and_new_journal() {
    // An assistant edit is journalled; its receipt holds the revision token.
    let journal = JournalStatus {
        has_undo: true,
        receipt_revision: 1,
    };
    let token = Some(journal.receipt_revision);
    assert!(undo_eligible(token, &journal, false));
    assert!(!undo_eligible(token, &journal, true));
    // Undo moved the entry to redo: the journal advanced and nothing is left to undo.
    let undone = JournalStatus {
        has_undo: false,
        receipt_revision: 2,
    };
    assert!(!undo_eligible(token, &undone, false));
    // Redo brings an entry back, under a new revision.
    let redone = JournalStatus {
        has_undo: true,
        receipt_revision: 3,
    };
    assert!(!undo_eligible(token, &redone, false));
    // A later manual edit retires the token taken before it.
    let token = Some(redone.receipt_revision);
    let manual = JournalStatus {
        has_undo: true,
        receipt_revision: 4,
    };
    assert!(!undo_eligible(token, &manual, false));
    let fresh = JournalStatus {
        has_undo: true,
        receipt_revision: 1,
    };
    assert!(!undo_eligible(token, &fresh, false));
    assert!(!undo_eligible(None, &fresh, false));
    let mut receipt = Receipt::change("Cu", Stage::Fit, vec![], fresh.receipt_revision);
    assert!(!receipt.can_undo(&fresh, false, 0));
    receipt.state = "Recalculation complete".into();
    assert!(receipt.can_undo(&fresh, false, 0));
    assert!(!receipt.can_undo(&fresh, false, 1)); // unjournalled manual model edit
    receipt.undo_retired = true;
    assert!(!receipt.can_undo(&fresh, false, 0)); // manually changing back stays retired
}

#[test]
fn show_results_is_navigation_only() {
    let r = Receipt::job("Fit complete · 2 variables · converged".into(), Some(4));
    assert_eq!(r.navigation, Navigation::Fit { results: true });
    assert_eq!(r.journal, None);
    assert_eq!(r.text(), "Fit complete · 2 variables · converged");
    let paths = Receipt::job("Calculation complete · paths ready".into(), None);
    assert_eq!(paths.navigation, Navigation::Fit { results: false });
}

#[test]
fn change_receipt_navigates_to_spectrum_stage_and_names_file() {
    let r = Receipt::change("/data/Fe.dat", Stage::Background, vec![], 7);
    assert_eq!(r.header, "Fe.dat · Background");
    assert_eq!(
        r.navigation,
        Navigation::Spectrum {
            spectrum: "/data/Fe.dat".into(),
            stage: Stage::Background
        }
    );
    assert_eq!(r.journal, Some(7));
    assert_eq!(r.state, "Recalculating…");
    assert_eq!(r.scope, "This spectrum");
    assert!(same_receipt(&r, &r.clone()));
    let mut other = r.clone();
    other.lines.push("kmin: 2 → 3 Å⁻¹".into());
    assert!(!same_receipt(&r, &other));
    assert_eq!(
        other.text(),
        "Fe.dat · Background\nkmin: 2 → 3 Å⁻¹\nThis spectrum\nRecalculating…"
    );
}

#[test]
fn scope_labels_count_datasets() {
    assert_eq!(scope_label(Some(0)), "Shared across 0 datasets");
    assert_eq!(scope_label(Some(12)), "Shared across 12 datasets");
    assert_eq!(
        history_result_notice(false, Some(105)).as_deref(),
        Some("Viewing history entry 105")
    );
    assert_eq!(
        navigation_target("/x", "/y", None),
        Err("Spectrum must already be in the open catalog".to_string())
    );
}

fn studio() -> StudioStatus {
    StudioStatus {
        model: 0,
        journal_revision: 1,
        current_path: "/data/Cu.dat".into(),
        params_fingerprint: 7,
        load_running: false,
        recompute_dirty: false,
        generation: 2,
        spectrum_fingerprint: 7,
        spectrum_is_current: true,
        plots_stale: false,
        fit_loading: false,
        fit_failed: false,
    }
}

fn scheduled() -> Receipt {
    let mut r = Receipt::change("/data/Cu.dat", Stage::Normalize, vec![], 1);
    r.processing = Some((7, 1));
    r
}

#[test]
fn refresh_settles_processing_receipts_by_their_output() {
    let mut r = scheduled();
    r.refresh(&studio());
    assert_eq!(r.state, "Recalculation complete");
    assert!(!r.undo_retired);

    let mut r = scheduled();
    r.refresh(&StudioStatus { generation: 1, ..studio() });
    assert_eq!(r.state, "Recalculating…");

    let mut r = scheduled();
    r.refresh(&StudioStatus { plots_stale: true, ..studio() });
    assert_eq!(r.state, "Recalculation failed");

    let mut r = scheduled();
    r.refresh(&StudioStatus { params_fingerprint: 8, ..studio() });
    assert_eq!(r.state, "Superseded by a later change");

    let mut r = scheduled();
    r.refresh(&StudioStatus { current_path: "/data/Fe.dat".into(), ..studio() });
    assert_eq!(r.state, "Superseded by a later change");

    let mut r = scheduled();
    r.refresh(&StudioStatus { spectrum_fingerprint: 6, ..studio() });
    assert_eq!(r.state, "Recalculating…");
}

#[test]
fn refresh_retires_undo_for_good_and_keeps_settled_states() {
    let mut r = Receipt::change("Cu", Stage::Fit, vec![], 1);
    r.refresh(&StudioStatus { journal_revision: 2, ..studio() });
    assert!(r.undo_retired);
    // A model receipt whose undo retired is superseded.
    assert_eq!(r.state, "Superseded by a later change");
    r.refresh(&studio());
    assert!(r.undo_retired);
    assert_eq!(r.state, "Superseded by a later change");

    let mut r = Receipt::change("Cu", Stage::Fit, vec![], 1);
    r.refresh(&StudioStatus { fit_loading: true, ..studio() });
    assert_eq!(r.state, "Recalculating…");
    r.refresh(&StudioStatus { fit_failed: true, ..studio() });
    assert_eq!(r.state, "Recalculation failed");
    r.refresh(&StudioStatus { model: 5, ..studio() });
    assert!(r.undo_retired);
    assert_eq!(r.state, "Recalculation failed");
}

#[test]
fn change_headers_name_file_and_stage() {
    assert_eq!(change_header(Some("cu.dat"), Stage::Normalize), "cu.dat · Normalize");
    assert_eq!(change_header(None, Stage::Fit), " · Fit");
    let r = Receipt::change("/data/run/fe.xmu", Stage::Background, vec![], 1);
    assert!(r.text().starts_with("fe.xmu · Background"));
}
