use rexafs_gui::settings::{change_fields, check_field, diff, number_rule, NumberRule, Setting};
use rexafs_gui::json::Json;
use rexafs_gui::json_text::{quote, to_text};

fn obj(members: Vec<(&str, Json)>) -> Json {
    Json::Object(members.into_iter().map(|(k, v)| (k.to_string(), v)).collect())
}

fn num(t: &str) -> Json {
    Json::Number(t.to_string())
}

fn text(t: &str) -> Json {
    Json::Str(t.to_string())
}

fn setting(key: &str, label: &str) -> Setting {
    Setting {
        key: key.to_string(),
        label: label.to_string(),
        section: "Background".to_string(),
    }
}

fn in_section(key: &str, section: &str) -> Setting {
    Setting {
        key: key.to_string(),
        label: key.to_string(),
        section: section.to_string(),
    }
}

#[test]
fn equal_values_give_no_lines() {
    let v = obj(vec![("a", num("1")), ("b", Json::Array(vec![obj(vec![])]))]);
    assert!(diff(&v, &v, &vec![]).is_empty());
}

#[test]
fn keys_of_both_sides_come_in_order_and_missing_ones_read_auto() {
    let before = obj(vec![("zeta", num("1")), ("alpha", num("2"))]);
    let after = obj(vec![("beta", text("x")), ("alpha", num("3"))]);
    assert_eq!(
        diff(&before, &after, &vec![]),
        ["alpha: 2 → 3", "beta: Auto → x", "zeta: 1 → Auto"]
    );
}

#[test]
fn range_ends_have_fixed_units_and_labels_lose_their_unit_part() {
    let settings = vec![
        setting("rmax", "R max (ignored)"),
        setting("rbkg", "Rbkg (Å))"),
        setting("rbkg", "second entry"),
    ];
    assert_eq!(
        diff(
            &obj(vec![("rbkg", num("1.0")), ("rmax", num("6"))]),
            &obj(vec![("rbkg", num("1.2")), ("rmax", num("5"))]),
            &settings
        ),
        ["Rbkg: 1.0 → 1.2 Å", "R max: 6 → 5 Å"]
    );
}

#[test]
fn arrays_of_objects_are_compared_by_index() {
    let before = obj(vec![(
        "paths",
        Json::Array(vec![obj(vec![("s02", num("1"))])]),
    )]);
    let after = obj(vec![(
        "paths",
        Json::Array(vec![obj(vec![("s02", num("1"))]), num("7")]),
    )]);
    assert_eq!(diff(&before, &after, &vec![]), ["paths[1]: Auto → 7"]);
}

#[test]
fn item_paths_use_decimal_indices() {
    let mut b = Vec::new();
    let mut a = Vec::new();
    for _ in 0..11 {
        b.push(obj(vec![]));
        a.push(obj(vec![]));
    }
    a[10] = obj(vec![("w", Json::Bool(true))]);
    assert_eq!(
        diff(&Json::Array(b), &Json::Array(a), &vec![]),
        ["[10].w: Auto → true"]
    );
}

#[test]
fn top_level_leaf_and_type_change() {
    assert_eq!(diff(&num("1"), &text("1"), &vec![]), [": 1 → 1"]);
    assert_eq!(
        diff(
            &obj(vec![("m", obj(vec![("x", num("1"))]))]),
            &obj(vec![("m", num("2"))]),
            &vec![]
        ),
        ["m: {\"x\":1} → 2"]
    );
}

#[test]
fn json_text_is_compact_and_escaped() {
    let v = obj(vec![
        ("a", Json::Array(vec![Json::Null, Json::Bool(false), num("-1.5")])),
        ("q\"", text("line\nnext\ttab\\ \u{1}")),
    ]);
    assert_eq!(
        to_text(&v),
        "{\"a\":[null,false,-1.5],\"q\\\"\":\"line\\nnext\\ttab\\\\ \\u0001\"}"
    );
    assert_eq!(quote("\u{8}\u{c}\r\u{1f}é"), "\"\\b\\f\\r\\u001fé\"");
}

#[test]
fn only_catalog_fields_outside_import_may_change() {
    let catalog = vec![
        in_section("fft_kweight", "Transform"),
        in_section("mode", "Import"),
        in_section("fft_kstep", "Transform"),
    ];
    assert_eq!(check_field("fft_kweight", &catalog), Ok(NumberRule::Nonnegative));
    assert_eq!(check_field("fft_kstep", &catalog), Ok(NumberRule::Positive));
    assert_eq!(
        check_field("mode", &catalog).unwrap_err(),
        "Unsupported processing field: mode"
    );
    assert_eq!(
        check_field("no_such_field", &catalog).unwrap_err(),
        "Unsupported processing field: no_such_field"
    );
}

#[test]
fn number_rules_follow_field_names() {
    for key in ["fft_kstep", "bkg_nfft", "rbkg", "kmin_step"] {
        assert_eq!(number_rule(key), NumberRule::Positive, "{key}");
    }
    for key in ["fft_kweight", "bkg_kmin", "fft_kmax", "bft_rmin", "fft_rmax", "fft_dk"] {
        assert_eq!(number_rule(key), NumberRule::Nonnegative, "{key}");
    }
    for key in ["e0", "fft_rmin", "pre_edge_start", "bft"] {
        assert_eq!(number_rule(key), NumberRule::Any, "{key}");
    }
}

#[test]
fn changes_must_be_a_non_empty_object() {
    assert_eq!(change_fields(&Json::Null).unwrap_err(), "changes must be an object");
    assert_eq!(change_fields(&obj(vec![])).unwrap_err(), "No settings provided");
    let patch = obj(vec![("fft_kweight", num("1"))]);
    assert_eq!(change_fields(&patch).unwrap().len(), 1);
}
