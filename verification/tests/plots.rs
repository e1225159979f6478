use rexafs_gui::plots::{stage_plot_selection, BkgView, EQuantity, QuantityInfo, StageView, TfView, PLOT_CHIK, PLOT_CHIQ, PLOT_CHIR, PLOT_MU, PLOT_NORM};
use rexafs_gui::json::Json;
use rexafs_gui::json_text::to_text;
use rexafs_gui::plots::{plot_contents, plot_summary, stage_plot_wanted};
use rexafs_gui::receipts::Stage;

fn items(contents: &Json) -> Vec<String> {
    match contents {
        Json::Object(m) => match &m[0].1 {
            Json::Array(items) => items.iter().map(to_text).collect(),
            _ => panic!("contentItems is not an array"),
        },
        _ => panic!("contents are not an object"),
    }
}

#[test]
fn stages_send_only_their_plots() {
    assert!(stage_plot_wanted(Stage::Normalize, "normalized-mu"));
    assert!(stage_plot_wanted(Stage::Normalize, "mu-energy"));
    assert!(!stage_plot_wanted(Stage::Normalize, "chi-k"));
    assert!(stage_plot_wanted(Stage::Background, "chi-k"));
    assert!(!stage_plot_wanted(Stage::Background, "chi-q"));
    assert!(stage_plot_wanted(Stage::Transform, "chi-r"));
    assert!(!stage_plot_wanted(Stage::Transform, "mu-energy"));
    assert!(stage_plot_wanted(Stage::Fit, "anything"));
    assert!(stage_plot_wanted(Stage::Data, "mu-energy"));
}

#[test]
fn summary_names_what_is_shown() {
    let summary = plot_summary("/data/Cu.dat", Stage::Transform, Json::Null, Json::Null, false, false);
    assert_eq!(
        to_text(&summary),
        "{\"fit_preview_ranges\":null,\"historical_fit_result\":false,\"images_included\":false,\"note\":\"Plots are disabled. Only numerical settings are provided; do not claim visual inspection.\",\"resolved\":null,\"spectrum\":\"/data/Cu.dat\",\"stage\":\"Transform\"}"
    );
}

#[test]
fn contents_hold_the_summary_and_the_wanted_images() {
    let summary = Json::Str("s".into());
    let plots = vec![
        ("chi-k".to_string(), b"Man".to_vec()),
        ("mu-energy".to_string(), vec![0u8, 1, 2]),
        ("chi-r".to_string(), vec![0xff]),
    ];
    let contents = plot_contents(&summary, Stage::Transform, true, &plots);
    assert_eq!(
        items(&contents),
        [
            "{\"text\":\"\\\"s\\\"\",\"type\":\"inputText\"}",
            "{\"text\":\"chi-k\",\"type\":\"inputText\"}",
            "{\"imageUrl\":\"data:image/png;base64,TWFu\",\"type\":\"inputImage\"}",
            "{\"text\":\"chi-r\",\"type\":\"inputText\"}",
            "{\"imageUrl\":\"data:image/png;base64,/w==\",\"type\":\"inputImage\"}",
        ]
    );
    let without = plot_contents(&summary, Stage::Transform, false, &plots);
    assert_eq!(items(&without).len(), 1);
    let fit = plot_contents(&summary, Stage::Fit, true, &plots);
    assert!(items(&fit).contains(&"{\"imageUrl\":\"data:image/png;base64,AAEC\",\"type\":\"inputImage\"}".to_string()));
}

fn view(focus: Option<usize>, e: EQuantity, b: BkgView, t: TfView) -> StageView {
    StageView { thumbnail_focus: focus, e_quantity: e, bkg_view: b, tf_view: t }
}

fn absorption() -> QuantityInfo {
    QuantityInfo { absorption: true, chi_k: false, label: String::new() }
}

fn titles(v: Vec<(usize, String)>) -> Vec<(usize, &'static str)> {
    v.into_iter().map(|(s, t)| (s, known(&t))).collect()
}

/// The expected title with a static lifetime, so that pairs compare directly.
fn known(t: &str) -> &'static str {
    const TITLES: [&str; 12] = [
        "normalized μ(E)", "μ(E)", "flattened μ(E)", "μ(E) with AUTOBK spline",
        "|χ(R)| · R < Rbkg is the background region", "χ(k) · k²", "|χ(R)| · k²",
        "|χ(R)| · mixed k weights", "χ(q) back-transform", "χ(k) · k² · window", "χ(k)", "I₀",
    ];
    TITLES.iter().copied().find(|k| *k == t).unwrap_or_else(|| panic!("unexpected title {t}"))
}

#[test]
fn each_stage_selects_its_plots() {
    let q = absorption();
    let base = view(None, EQuantity::Norm, BkgView::K, TfView::Both);
    let sel = |stage, v, mixed| titles(stage_plot_selection(stage, true, v, "χ(k) · k²", "|χ(R)| · k²", mixed, &q));
    assert_eq!(sel(Stage::Normalize, base, false), vec![(PLOT_NORM, "normalized μ(E)")]);
    assert_eq!(sel(Stage::Data, view(None, EQuantity::Mu, BkgView::K, TfView::K), false), vec![(PLOT_MU, "μ(E)")]);
    assert_eq!(sel(Stage::Data, view(None, EQuantity::Flat, BkgView::K, TfView::K), false), vec![(PLOT_NORM, "flattened μ(E)")]);
    assert_eq!(
        sel(Stage::Background, view(None, EQuantity::Mu, BkgView::Energy, TfView::K), false),
        vec![(PLOT_MU, "μ(E) with AUTOBK spline"), (PLOT_CHIR, "|χ(R)| · R < Rbkg is the background region")]
    );
    assert_eq!(sel(Stage::Background, base, false), vec![(PLOT_CHIK, "χ(k) · k²"), (PLOT_CHIR, "|χ(R)| · k²")]);
    assert_eq!(sel(Stage::Transform, base, true), vec![(PLOT_CHIK, "χ(k) · k²"), (PLOT_CHIR, "|χ(R)| · mixed k weights")]);
    assert_eq!(sel(Stage::Transform, view(None, EQuantity::Mu, BkgView::K, TfView::Q), false), vec![(PLOT_CHIQ, "χ(q) back-transform")]);
    assert_eq!(sel(Stage::Fit, base, false), vec![]);
    assert_eq!(sel(Stage::Fit, view(Some(2), EQuantity::Mu, BkgView::K, TfView::K), false), vec![(PLOT_CHIK, "χ(k) · k² · window")]);
    assert_eq!(sel(Stage::Fit, view(Some(3), EQuantity::Mu, BkgView::K, TfView::K), true), vec![(PLOT_CHIR, "|χ(R)| · mixed k weights")]);
}

#[test]
fn other_quantities_show_only_themselves() {
    let v = view(Some(0), EQuantity::Norm, BkgView::K, TfView::Both);
    let chi = QuantityInfo { absorption: false, chi_k: true, label: String::new() };
    assert_eq!(titles(stage_plot_selection(Stage::Normalize, true, v, "χ(k)", "|χ(R)|", false, &chi)), vec![(PLOT_CHIK, "χ(k)")]);
    let other = QuantityInfo { absorption: false, chi_k: false, label: "I₀".to_string() };
    assert_eq!(titles(stage_plot_selection(Stage::Data, true, v, "χ(k)", "|χ(R)|", false, &other)), vec![(PLOT_MU, "I₀")]);
    assert_eq!(titles(stage_plot_selection(Stage::Fit, false, v, "χ(k)", "|χ(R)|", false, &other)), vec![(PLOT_NORM, "normalized μ(E)")]);
}
