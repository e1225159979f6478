//! What the assistant receives when it inspects the current plots: a JSON
//! summary of what is shown, and the stage's plots as PNG images in data
//! URLs, or a note that images are disabled.
use vstd::prelude::*;
use crate::json::{Json, JsonView, object};
use crate::json_text::{json_text, to_text};
use crate::receipts::Stage;
use crate::text::str_eq;
use base64::Engine;

verus! {

/// Whether the plot called `name` is sent for `stage`: Normalize sends the
/// normalized and raw absorption, Background all but χ(q), Transform only
/// χ(k), χ(R) and χ(q); other stages send every plot.
pub open spec fn plot_wanted(stage: Stage, name: Seq<char>) -> bool {
    match stage {
        Stage::Normalize => name == "normalized-mu"@ || name == "mu-energy"@,
        Stage::Background => name != "chi-q"@,
        Stage::Transform => name == "chi-k"@ || name == "chi-r"@ || name == "chi-q"@,
        _ => true,
    }
}

/// Whether the plot called `name` is sent for `stage`.
pub fn stage_plot_wanted(stage: Stage, name: &str) -> (r: bool)
    ensures
        r == plot_wanted(stage, name@),
{
    match stage {
        Stage::Normalize => str_eq(name, "normalized-mu") || str_eq(name, "mu-energy"),
        Stage::Background => !str_eq(name, "chi-q"),
        Stage::Transform => str_eq(name, "chi-k") || str_eq(name, "chi-r") || str_eq(name, "chi-q"),
        _ => true,
    }
}

/// The note on what the assistant may conclude from the plots.
pub open spec fn plots_note(images: bool) -> Seq<char> {
    if images {
        "Inspect these plots; numerical convergence alone is not a quality judgment."@
    } else {
        "Plots are disabled. Only numerical settings are provided; do not claim visual inspection."@
    }
}

/// The summary of what is shown, members in key order.
pub open spec fn summary_of(
    spectrum: Seq<char>,
    stage: Stage,
    resolved: JsonView,
    ranges: JsonView,
    historical_fit: bool,
    images: bool,
) -> JsonView {
    object(
        seq![
            ("fit_preview_ranges"@, ranges),
            ("historical_fit_result"@, JsonView::Bool(historical_fit)),
            ("images_included"@, JsonView::Bool(images)),
            ("note"@, JsonView::Str(plots_note(images))),
            ("resolved"@, resolved),
            ("spectrum"@, JsonView::Str(spectrum)),
            ("stage"@, JsonView::Str(stage.label())),
        ],
    )
}

/// The summary of what is shown: the spectrum, the stage, the resolved
/// settings, the fit preview ranges (or null), whether a historical fit
/// result is shown and whether images follow.
pub fn plot_summary(
    spectrum: &str,
    stage: Stage,
    resolved: Json,
    ranges: Json,
    historical_fit: bool,
    images: bool,
) -> (r: Json)
    ensures
        r@ == summary_of(spectrum@, stage, resolved@, ranges@, historical_fit, images),
{
    let note = if images {
        "Inspect these plots; numerical convergence alone is not a quality judgment."
    } else {
        "Plots are disabled. Only numerical settings are provided; do not claim visual inspection."
    };
    let mut members: Vec<(String, Json)> = Vec::new();
    members.push((String::from_str("fit_preview_ranges"), ranges));
    members.push((String::from_str("historical_fit_result"), Json::Bool(historical_fit)));
    members.push((String::from_str("images_included"), Json::Bool(images)));
    members.push((String::from_str("note"), Json::Str(String::from_str(note))));
    members.push((String::from_str("resolved"), resolved));
    members.push((String::from_str("spectrum"), Json::Str(String::from_str(spectrum))));
    members.push((String::from_str("stage"), Json::Str(String::from_str(stage.name()))));
    let r = crate::json::object_value(members);
    assert(Seq::new(members@.len(), |i: int| (members@[i].0@, members@[i].1@)) =~= seq![
        ("fit_preview_ranges"@, ranges@),
        ("historical_fit_result"@, JsonView::Bool(historical_fit)),
        ("images_included"@, JsonView::Bool(images)),
        ("note"@, JsonView::Str(plots_note(images))),
        ("resolved"@, resolved@),
        ("spectrum"@, JsonView::Str(spectrum@)),
        ("stage"@, JsonView::Str(stage.label())),
    ]);
    r
}

/// Character `i` (below 64) of the standard base64 alphabet: `A`–`Z`,
/// `a`–`z`, `0`–`9`, `+`, `/`.
pub open spec fn base64_char(i: int) -> char {
    if i < 26 {
        (65 + i) as char
    } else if i < 52 {
        (97 + i - 26) as char
    } else if i < 62 {
        (48 + i - 52) as char
    } else if i == 62 {
        '+'
    } else {
        '/'
    }
}

/// The standard base64 text of `bytes` (RFC 4648, with padding): each group
/// of three bytes, read as a 24-bit number, becomes four characters of six
/// bits each; a last group of one or two bytes becomes two or three
/// characters and `=` to fill four.
pub open spec fn base64_of(bytes: Seq<u8>) -> Seq<char>
    decreases bytes.len(),
{
    if bytes.len() == 0 {
        seq![]
    } else if bytes.len() == 1 {
        let v = bytes[0] * 65536;
        seq![base64_char(v / 262144), base64_char((v / 4096) % 64), '=', '=']
    } else if bytes.len() == 2 {
        let v = bytes[0] * 65536 + bytes[1] * 256;
        seq![base64_char(v / 262144), base64_char((v / 4096) % 64), base64_char((v / 64) % 64), '=']
    } else {
        let v = bytes[0] * 65536 + bytes[1] * 256 + bytes[2];
        seq![
            base64_char(v / 262144),
            base64_char((v / 4096) % 64),
            base64_char((v / 64) % 64),
            base64_char(v % 64),
        ] + base64_of(bytes.skip(3))
    }
}

/// `base64::Engine::encode` with `base64::engine::general_purpose::STANDARD`,
/// which writes the standard alphabet with padding ([`base64_of`]). Inputs
/// near `usize::MAX` would overflow the crate's length computation (it
/// panics there), so they are left out.
#[verifier::external_body]
fn base64_standard(bytes: &Vec<u8>) -> (r: String)
    requires
        bytes@.len() < usize::MAX / 2,
    ensures
        r@ == base64_of(bytes@),
{
    base64::engine::general_purpose::STANDARD.encode(bytes)
}

/// `{"text": text, "type": "inputText"}`.
pub open spec fn text_item(text: Seq<char>) -> JsonView {
    object(seq![("text"@, JsonView::Str(text)), ("type"@, JsonView::Str("inputText"@))])
}

/// `{"imageUrl": "data:image/png;base64,…", "type": "inputImage"}`.
pub open spec fn image_item(png: Seq<u8>) -> JsonView {
    object(
        seq![
            ("imageUrl"@, JsonView::Str("data:image/png;base64,"@ + base64_of(png))),
            ("type"@, JsonView::Str("inputImage"@)),
        ],
    )
}

/// The content items for the plots: the summary's compact JSON text, then,
/// when images are included, each plot the stage wants as its name and its
/// image.
pub open spec fn plot_items(summary: JsonView, stage: Stage, images: bool, plots: Seq<(Seq<char>, Seq<u8>)>) -> Seq<JsonView>
    decreases plots.len(),
{
    if plots.len() == 0 {
        seq![text_item(json_text(summary))]
    } else {
        let (name, png) = plots.last();
        plot_items(summary, stage, images, plots.drop_last()) + if images && plot_wanted(stage, name) {
            seq![text_item(name), image_item(png)]
        } else {
            seq![]
        }
    }
}

/// The views of named PNG images.
pub open spec fn png_views(plots: Seq<(String, Vec<u8>)>) -> Seq<(Seq<char>, Seq<u8>)> {
    plots.map_values(|p: (String, Vec<u8>)| (p.0@, p.1@))
}

fn text_item_value(text: String) -> (r: Json)
    ensures
        r@ == text_item(text@),
{
    crate::json::object2("text", Json::Str(text), "type", Json::Str(String::from_str("inputText")))
}

/// The reply contents of a plot inspection: `{"contentItems": [...]}` with
/// the items of [`plot_items`].
pub fn plot_contents(summary: &Json, stage: Stage, images: bool, plots: &Vec<(String, Vec<u8>)>) -> (r: Json)
    requires
        forall|i: int| 0 <= i < plots@.len() ==> (#[trigger] plots@[i]).1@.len() < usize::MAX / 2,
    ensures
        r@ == object(
            seq![("contentItems"@, JsonView::Array(plot_items(summary@, stage, images, png_views(plots@))))],
        ),
{
    let mut items: Vec<Json> = Vec::new();
    items.push(text_item_value(to_text(summary)));
    let ghost pv = png_views(plots@);
    let n = plots.len();
    let mut i: usize = 0;
    assert(pv.take(0) =~= seq![]);
    while i < n
        invariant
            n == plots@.len(),
            pv == png_views(plots@),
            forall|k: int| 0 <= k < plots@.len() ==> (#[trigger] plots@[k]).1@.len() < usize::MAX / 2,
            i <= n,
            items@.len() >= 1,
            Seq::new(items@.len(), |k: int| items@[k]@) == plot_items(summary@, stage, images, pv.take(i as int)),
        decreases n - i,
    {
        let ghost before = Seq::new(items@.len(), |k: int| items@[k]@);
        let name = plots[i].0.as_str();
        assert(pv.take(i + 1).drop_last() =~= pv.take(i as int));
        assert(pv.take(i + 1).last() == (plots@[i as int].0@, plots@[i as int].1@));
        if images && stage_plot_wanted(stage, name) {
            items.push(text_item_value(String::from_str(name)));
            let encoded = base64_standard(&plots[i].1);
            let url = String::from_str("data:image/png;base64,").concat(encoded.as_str());
            let image = crate::json::object2("imageUrl", Json::Str(url), "type", Json::Str(String::from_str("inputImage")));
            items.push(image);
            assert(Seq::new(items@.len(), |k: int| items@[k]@) =~= before + seq![
                text_item(plots@[i as int].0@),
                image_item(plots@[i as int].1@),
            ]);
        } else {
            assert(before + seq![] =~= before);
        }
        i = i + 1;
    }
    assert(pv.take(n as int) =~= pv);
    let list = Json::Array(items);
    assert(list@ == JsonView::Array(Seq::new(items@.len(), |k: int| items@[k]@))) by {
        match list@ {
            JsonView::Array(a) => {
                assert(a =~= Seq::new(items@.len(), |k: int| items@[k]@));
            },
            _ => {},
        }
    }
    crate::json::object1("contentItems", list)
}

/// Slots of the stage's main plots.
pub const PLOT_MU: usize = 0;
pub const PLOT_NORM: usize = 1;
pub const PLOT_CHIK: usize = 2;
pub const PLOT_CHIR: usize = 3;
pub const PLOT_CHIQ: usize = 4;

/// The energy-space quantity shown at Data and Normalize.
#[derive(Clone, Copy, Debug, PartialEq, Eq, Structural)]
pub enum EQuantity {
    Mu,
    Norm,
    Flat,
}

/// The Background stage's view.
#[derive(Clone, Copy, Debug, PartialEq, Eq, Structural)]
pub enum BkgView {
    Energy,
    K,
}

/// The Transform stage's view.
#[derive(Clone, Copy, Debug, PartialEq, Eq, Structural)]
pub enum TfView {
    K,
    R,
    Q,
    Both,
}

/// The main view's choices.
#[derive(Clone, Copy, Debug, PartialEq, Eq, Structural)]
pub struct StageView {
    /// The focused thumbnail, if one is.
    pub thumbnail_focus: Option<usize>,
    pub e_quantity: EQuantity,
    pub bkg_view: BkgView,
    pub tf_view: TfView,
}

/// What the shown group is: absorption, χ(k), or another quantity called
/// `label`.
pub struct QuantityInfo {
    pub absorption: bool,
    pub chi_k: bool,
    pub label: String,
}

/// The plots (slot and title) of the main view. A processing stage of a
/// group that is not absorption shows its one quantity. Otherwise a focused
/// thumbnail shows its plot, and each stage its own: χ(k) is titled `chik`,
/// |χ(R)| `chir`, or "mixed k weights" when the groups' weights differ.
pub open spec fn selection_of(
    stage: Stage,
    processing: bool,
    v: StageView,
    chik: Seq<char>,
    chir: Seq<char>,
    mixed_weights: bool,
    q: QuantityInfo,
) -> Seq<(usize, Seq<char>)> {
    let r = if mixed_weights {
        "|χ(R)| · mixed k weights"@
    } else {
        chir
    };
    if processing && !q.absorption {
        seq![if q.chi_k { (PLOT_CHIK, chik) } else { (PLOT_MU, q.label@) }]
    } else {
        match v.thumbnail_focus {
            Some(i) => seq![
                if i == 0 {
                    (PLOT_NORM, "normalized μ(E)"@)
                } else if i == 1 {
                    (PLOT_CHIK, chik)
                } else if i == 2 {
                    (PLOT_CHIK, chik + " · window"@)
                } else {
                    (PLOT_CHIR, r)
                },
            ],
            None => match stage {
                Stage::Data | Stage::Normalize => seq![
                    match v.e_quantity {
                        EQuantity::Mu => (PLOT_MU, "μ(E)"@),
                        EQuantity::Norm => (PLOT_NORM, "normalized μ(E)"@),
                        EQuantity::Flat => (PLOT_NORM, "flattened μ(E)"@),
                    },
                ],
                Stage::Background => match v.bkg_view {
                    BkgView::Energy => seq![
                        (PLOT_MU, "μ(E) with AUTOBK spline"@),
                        (PLOT_CHIR, "|χ(R)| · R < Rbkg is the background region"@),
                    ],
                    BkgView::K => seq![(PLOT_CHIK, chik), (PLOT_CHIR, r)],
                },
                Stage::Transform => match v.tf_view {
                    TfView::K => seq![(PLOT_CHIK, chik)],
                    TfView::R => seq![(PLOT_CHIR, r)],
                    TfView::Q => seq![(PLOT_CHIQ, "χ(q) back-transform"@)],
                    TfView::Both => seq![(PLOT_CHIK, chik), (PLOT_CHIR, r)],
                },
                _ => seq![],
            },
        }
    }
}

/// The views of plot titles.
pub open spec fn titled(plots: Seq<(usize, String)>) -> Seq<(usize, Seq<char>)> {
    plots.map_values(|p: (usize, String)| (p.0, p.1@))
}

fn one(slot: usize, title: String) -> (r: Vec<(usize, String)>)
    ensures
        titled(r@) == seq![(slot, title@)],
{
    let r = vec![(slot, title)];
    assert(titled(r@) =~= seq![(slot, title@)]);
    r
}

fn two(s1: usize, t1: String, s2: usize, t2: String) -> (r: Vec<(usize, String)>)
    ensures
        titled(r@) == seq![(s1, t1@), (s2, t2@)],
{
    let r = vec![(s1, t1), (s2, t2)];
    assert(titled(r@) =~= seq![(s1, t1@), (s2, t2@)]);
    r
}

/// The plots of the main view for freshly created and reopened groups (see
/// [`selection_of`]); `processing` says whether `stage` is a processing
/// stage, and `chik` and `chir` are the titles for the current k weight.
pub fn stage_plot_selection(
    stage: Stage,
    processing: bool,
    v: StageView,
    chik: &str,
    chir: &str,
    mixed_weights: bool,
    q: &QuantityInfo,
) -> (r: Vec<(usize, String)>)
    ensures
        titled(r@) == selection_of(stage, processing, v, chik@, chir@, mixed_weights, *q),
{
    if processing && !q.absorption {
        return if q.chi_k {
            one(PLOT_CHIK, String::from_str(chik))
        } else {
            one(PLOT_MU, q.label.clone())
        };
    }
    let r = if mixed_weights {
        "|χ(R)| · mixed k weights"
    } else {
        chir
    };
    match v.thumbnail_focus {
        Some(i) => {
            return if i == 0 {
                one(PLOT_NORM, String::from_str("normalized μ(E)"))
            } else if i == 1 {
                one(PLOT_CHIK, String::from_str(chik))
            } else if i == 2 {
                one(PLOT_CHIK, String::from_str(chik).concat(" · window"))
            } else {
                one(PLOT_CHIR, String::from_str(r))
            };
        },
        None => {},
    }
    match stage {
        Stage::Data | Stage::Normalize => match v.e_quantity {
            EQuantity::Mu => one(PLOT_MU, String::from_str("μ(E)")),
            EQuantity::Norm => one(PLOT_NORM, String::from_str("normalized μ(E)")),
            EQuantity::Flat => one(PLOT_NORM, String::from_str("flattened μ(E)")),
        },
        Stage::Background => match v.bkg_view {
            BkgView::Energy => two(
                PLOT_MU,
                String::from_str("μ(E) with AUTOBK spline"),
                PLOT_CHIR,
                String::from_str("|χ(R)| · R < Rbkg is the background region"),
            ),
            BkgView::K => two(PLOT_CHIK, String::from_str(chik), PLOT_CHIR, String::from_str(r)),
        },
        Stage::Transform => match v.tf_view {
            TfView::K => one(PLOT_CHIK, String::from_str(chik)),
            TfView::R => one(PLOT_CHIR, String::from_str(r)),
            TfView::Q => one(PLOT_CHIQ, String::from_str("χ(q) back-transform")),
            TfView::Both => two(PLOT_CHIK, String::from_str(chik), PLOT_CHIR, String::from_str(r)),
        },
        _ => {
            let e: Vec<(usize, String)> = Vec::new();
            assert(titled(e@) =~= Seq::<(usize, Seq<char>)>::empty());
            e
        },
    }
}

/// Base64 text has four characters for each started group of three bytes.
pub proof fn law_base64_length(bytes: Seq<u8>)
    ensures
        base64_of(bytes).len() == 4 * ((bytes.len() + 2) / 3),
    decreases bytes.len(),
{
    if bytes.len() >= 3 {
        law_base64_length(bytes.skip(3));
    }
}

/// Base64 encodes each group of three bytes on its own: bytes whose first
/// part is a whole number of groups encode as that part's text followed by
/// the rest's.
pub proof fn law_base64_concatenates(a: Seq<u8>, b: Seq<u8>)
    requires
        a.len() % 3 == 0,
    ensures
        base64_of(a + b) == base64_of(a) + base64_of(b),
    decreases a.len(),
{
    if a.len() == 0 {
        assert(a + b =~= b);
        assert(base64_of(a) + base64_of(b) =~= base64_of(b));
    } else {
        assert((a + b).skip(3) =~= a.skip(3) + b);
        law_base64_concatenates(a.skip(3), b);
        assert((a + b)[0] == a[0] && (a + b)[1] == a[1] && (a + b)[2] == a[2]);
    }
}

/// Without images the plot reply is the summary alone; with them it begins
/// with the summary and has two items (name and image) per wanted plot.
pub proof fn law_plot_items_without_images(summary: JsonView, stage: Stage, plots: Seq<(Seq<char>, Seq<u8>)>)
    ensures
        plot_items(summary, stage, false, plots) == seq![text_item(json_text(summary))],
        plot_items(summary, stage, true, plots)[0] == text_item(json_text(summary)),
        plot_items(summary, stage, true, plots).len() % 2 == 1,
    decreases plots.len(),
{
    if plots.len() > 0 {
        law_plot_items_without_images(summary, stage, plots.drop_last());
        assert(plot_items(summary, stage, false, plots) =~= plot_items(summary, stage, false, plots.drop_last()));
    }
}

} // verus!
