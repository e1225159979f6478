//! Row commands use a durable menu target, independently of current and marks.
use vstd::prelude::*;
use crate::text::{decimal, decimal_text, str_eq, trim, trimmed};
use std::collections::BTreeMap;

verus! {

broadcast use vstd::std_specs::btree::group_btree_axioms;

/// How a group's absorption signal is measured.
#[derive(Clone, Copy, Debug, PartialEq, Eq, Structural)]
pub enum DetectionMode {
    Auto,
    Transmission,
    Fluorescence,
    Reference,
    MuColumn,
}

/// Commands of the group context menu.
#[derive(Clone, Copy, Debug, PartialEq, Eq, Structural)]
pub enum Item {
    Current,
    Mark,
    Rename,
    Colors,
    Color(u8),
    Duplicate,
    Lock,
    Remap,
    Channels,
    Channel(DetectionMode),
    Standard,
    Inputs,
    Reveal,
    Export,
    Remove,
    Merge,
    Align,
    Compare,
}

/// What the menu's target and the project's marks allow.
#[derive(Clone, Debug, Default)]
pub struct MenuContext {
    pub spectrum: bool,
    pub file: bool,
    pub derived: bool,
    pub operation: bool,
    pub locked: bool,
    pub marked: bool,
    pub marks: usize,
    pub absorption: bool,
    pub marked_absorption: usize,
    pub incompatible_marks: bool,
    pub source_exists: bool,
    pub compare: bool,
    pub channels: Vec<(DetectionMode, Option<&'static str>)>,
}

/// One menu entry; a disabled entry says why.
#[derive(Debug)]
pub struct MenuItem {
    pub item: Item,
    pub enabled: bool,
    pub reason: Option<&'static str>,
    pub label: String,
}

/// The number of entries of the group menu.
pub const MENU_LEN: usize = 16;

/// The menu's entries, in order.
pub open spec fn menu_item(k: int) -> Item {
    if k == 0 {
        Item::Current
    } else if k == 1 {
        Item::Mark
    } else if k == 2 {
        Item::Rename
    } else if k == 3 {
        Item::Colors
    } else if k == 4 {
        Item::Duplicate
    } else if k == 5 {
        Item::Lock
    } else if k == 6 {
        Item::Remap
    } else if k == 7 {
        Item::Channels
    } else if k == 8 {
        Item::Standard
    } else if k == 9 {
        Item::Inputs
    } else if k == 10 {
        Item::Reveal
    } else if k == 11 {
        Item::Export
    } else if k == 12 {
        Item::Remove
    } else if k == 13 {
        Item::Merge
    } else if k == 14 {
        Item::Align
    } else {
        Item::Compare
    }
}

/// The label of `item`, which for Mark, Lock and Merge depends on the context.
pub open spec fn item_label(c: MenuContext, item: Item) -> Seq<char> {
    match item {
        Item::Current => "Make current"@,
        Item::Mark => if c.marked {
            "Unmark"@
        } else {
            "Mark"@
        },
        Item::Rename => "Rename"@,
        Item::Colors => "Color ▸"@,
        Item::Duplicate => "Duplicate group"@,
        Item::Lock => if c.locked {
            "Unlock processing"@
        } else {
            "Lock processing"@
        },
        Item::Remap => "Re-map columns…"@,
        Item::Channels => "Add channel ▸"@,
        Item::Standard => "Set as alignment standard"@,
        Item::Inputs => "Show inputs"@,
        Item::Reveal => "Reveal source in Finder"@,
        Item::Export => "Export…"@,
        Item::Remove => "Remove group"@,
        Item::Merge => "Merge "@ + decimal(c.marks as nat) + " marked…"@,
        Item::Align => "Align marked…"@,
        _ => "Compare current and marked"@,
    }
}

/// Why `item` is disabled in context `c`, if it is.
pub open spec fn disabled_reason(c: MenuContext, item: Item) -> Option<Seq<char>> {
    if (item is Mark || item is Colors || item is Duplicate || item is Lock || item is Export)
        && !c.spectrum {
        Some("Requires a spectrum"@)
    } else if (item is Remap || item is Channels) && !c.file {
        Some("No source columns"@)
    } else if item is Standard && !c.absorption {
        Some("Requires an absorption spectrum"@)
    } else if item is Inputs && !c.operation {
        Some("No recorded inputs"@)
    } else if item is Reveal && !c.source_exists {
        Some("Source is not a local file"@)
    } else if item is Remove && !c.derived {
        Some("Source group removal is not available yet"@)
    } else if item is Merge && c.incompatible_marks {
        Some("Marked quantities are incompatible"@)
    } else if item is Merge && c.marks < 2 {
        Some("Mark at least two spectra"@)
    } else if item is Align && c.marked_absorption == 0 {
        Some("Mark an absorption spectrum"@)
    } else if item is Compare && !c.compare {
        Some("Requires two compatible spectra"@)
    } else {
        None
    }
}

/// Compare is enabled exactly when the current and marked groups hold two
/// compatible spectra to compare; otherwise it says so.
pub proof fn law_compare_enabled_exactly_when_comparable(c: MenuContext)
    ensures
        disabled_reason(c, Item::Compare) is None <==> c.compare,
        !c.compare ==> disabled_reason(c, Item::Compare) == Some("Requires two compatible spectra"@),
{
}

/// Each entry is enabled exactly when what it acts on is there: marking,
/// colours, duplication, locking and export need a spectrum; remapping and
/// channels source columns; the standard an absorption spectrum; inputs a
/// recorded operation; reveal a local source file; removal a derived group;
/// merging two compatible marks; alignment a marked absorption spectrum.
/// The current-group entry, renaming, colours and channels themselves are
/// always enabled.
pub proof fn law_entries_enabled_by_their_needs(c: MenuContext)
    ensures
        disabled_reason(c, Item::Mark) is None <==> c.spectrum,
        disabled_reason(c, Item::Colors) is None <==> c.spectrum,
        disabled_reason(c, Item::Duplicate) is None <==> c.spectrum,
        disabled_reason(c, Item::Lock) is None <==> c.spectrum,
        disabled_reason(c, Item::Export) is None <==> c.spectrum,
        disabled_reason(c, Item::Remap) is None <==> c.file,
        disabled_reason(c, Item::Channels) is None <==> c.file,
        disabled_reason(c, Item::Standard) is None <==> c.absorption,
        disabled_reason(c, Item::Inputs) is None <==> c.operation,
        disabled_reason(c, Item::Reveal) is None <==> c.source_exists,
        disabled_reason(c, Item::Remove) is None <==> c.derived,
        disabled_reason(c, Item::Merge) is None <==> (!c.incompatible_marks && c.marks >= 2),
        disabled_reason(c, Item::Align) is None <==> c.marked_absorption > 0,
        disabled_reason(c, Item::Current) is None,
        disabled_reason(c, Item::Rename) is None,
        forall|k: u8| #[trigger] disabled_reason(c, Item::Color(k)) is None,
        forall|m: DetectionMode| #[trigger] disabled_reason(c, Item::Channel(m)) is None,
{
}

fn item_at(k: usize) -> (r: Item)
    ensures
        r == menu_item(k as int),
{
    if k == 0 {
        Item::Current
    } else if k == 1 {
        Item::Mark
    } else if k == 2 {
        Item::Rename
    } else if k == 3 {
        Item::Colors
    } else if k == 4 {
        Item::Duplicate
    } else if k == 5 {
        Item::Lock
    } else if k == 6 {
        Item::Remap
    } else if k == 7 {
        Item::Channels
    } else if k == 8 {
        Item::Standard
    } else if k == 9 {
        Item::Inputs
    } else if k == 10 {
        Item::Reveal
    } else if k == 11 {
        Item::Export
    } else if k == 12 {
        Item::Remove
    } else if k == 13 {
        Item::Merge
    } else if k == 14 {
        Item::Align
    } else {
        Item::Compare
    }
}

fn label_of(c: &MenuContext, item: Item) -> (r: String)
    ensures
        r@ == item_label(*c, item),
{
    match item {
        Item::Current => String::from_str("Make current"),
        Item::Mark => if c.marked {
            String::from_str("Unmark")
        } else {
            String::from_str("Mark")
        },
        Item::Rename => String::from_str("Rename"),
        Item::Colors => String::from_str("Color ▸"),
        Item::Duplicate => String::from_str("Duplicate group"),
        Item::Lock => if c.locked {
            String::from_str("Unlock processing")
        } else {
            String::from_str("Lock processing")
        },
        Item::Remap => String::from_str("Re-map columns…"),
        Item::Channels => String::from_str("Add channel ▸"),
        Item::Standard => String::from_str("Set as alignment standard"),
        Item::Inputs => String::from_str("Show inputs"),
        Item::Reveal => String::from_str("Reveal source in Finder"),
        Item::Export => String::from_str("Export…"),
        Item::Remove => String::from_str("Remove group"),
        Item::Merge => String::from_str("Merge ").concat(decimal_text(c.marks as u64).as_str()).concat(
            " marked…",
        ),
        Item::Align => String::from_str("Align marked…"),
        _ => String::from_str("Compare current and marked"),
    }
}

fn reason_of(c: &MenuContext, item: Item) -> (r: Option<&'static str>)
    ensures
        match r {
            Some(s) => disabled_reason(*c, item) == Some(s@),
            None => disabled_reason(*c, item) is None,
        },
{
    if matches!(item, Item::Mark | Item::Colors | Item::Duplicate | Item::Lock | Item::Export)
        && !c.spectrum {
        Some("Requires a spectrum")
    } else if matches!(item, Item::Remap | Item::Channels) && !c.file {
        Some("No source columns")
    } else if matches!(item, Item::Standard) && !c.absorption {
        Some("Requires an absorption spectrum")
    } else if matches!(item, Item::Inputs) && !c.operation {
        Some("No recorded inputs")
    } else if matches!(item, Item::Reveal) && !c.source_exists {
        Some("Source is not a local file")
    } else if matches!(item, Item::Remove) && !c.derived {
        Some("Source group removal is not available yet")
    } else if matches!(item, Item::Merge) && c.incompatible_marks {
        Some("Marked quantities are incompatible")
    } else if matches!(item, Item::Merge) && c.marks < 2 {
        Some("Mark at least two spectra")
    } else if matches!(item, Item::Align) && c.marked_absorption == 0 {
        Some("Mark an absorption spectrum")
    } else if matches!(item, Item::Compare) && !c.compare {
        Some("Requires two compatible spectra")
    } else {
        None
    }
}

/// The group menu for context `c`: every command in a fixed order, enabled
/// exactly when no rule disables it.
pub fn menu_items(c: &MenuContext) -> (r: Vec<MenuItem>)
    ensures
        r@.len() == MENU_LEN,
        forall|k: int|
            0 <= k < MENU_LEN ==> {
                let e = #[trigger] r@[k];
                &&& e.item == menu_item(k)
                &&& e.label@ == item_label(*c, menu_item(k))
                &&& e.enabled == disabled_reason(*c, menu_item(k)) is None
                &&& match e.reason {
                    Some(s) => disabled_reason(*c, menu_item(k)) == Some(s@),
                    None => disabled_reason(*c, menu_item(k)) is None,
                }
            },
{
    let mut items: Vec<MenuItem> = Vec::new();
    let mut k: usize = 0;
    while k < MENU_LEN
        invariant
            k <= MENU_LEN,
            items@.len() == k,
            forall|j: int|
                0 <= j < k ==> {
                    let e = #[trigger] items@[j];
                    &&& e.item == menu_item(j)
                    &&& e.label@ == item_label(*c, menu_item(j))
                    &&& e.enabled == disabled_reason(*c, menu_item(j)) is None
                    &&& match e.reason {
                        Some(s) => disabled_reason(*c, menu_item(j)) == Some(s@),
                        None => disabled_reason(*c, menu_item(j)) is None,
                    }
                },
        decreases MENU_LEN - k,
    {
        let item = item_at(k);
        let reason = reason_of(c, item);
        items.push(MenuItem { item, enabled: reason.is_none(), reason, label: label_of(c, item) });
        k = k + 1;
    }
    items
}

/// The channel modes a group can add, in menu order.
pub open spec fn channel_mode(k: int) -> DetectionMode {
    if k == 0 {
        DetectionMode::Transmission
    } else if k == 1 {
        DetectionMode::Fluorescence
    } else if k == 2 {
        DetectionMode::Reference
    } else {
        DetectionMode::MuColumn
    }
}

/// The channel modes not yet `present`, in menu order.
pub open spec fn missing_modes(present: Seq<DetectionMode>) -> Seq<DetectionMode> {
    seq![
        DetectionMode::Transmission,
        DetectionMode::Fluorescence,
        DetectionMode::Reference,
        DetectionMode::MuColumn,
    ].filter(|m: DetectionMode| !present.contains(m))
}

pub open spec fn undetected() -> Seq<char> {
    "Required columns were not detected"@
}

fn contains_mode(modes: &[DetectionMode], mode: DetectionMode) -> (r: bool)
    ensures
        r == modes@.contains(mode),
{
    let n = modes.len();
    let mut i: usize = 0;
    while i < n
        invariant
            n == modes@.len(),
            i <= n,
            forall|k: int| 0 <= k < i ==> modes@[k] != mode,
        decreases n - i,
    {
        if modes[i] == mode {
            return true;
        }
        i = i + 1;
    }
    false
}

/// Channels that can still be added: each mode not yet present, disabled
/// (with a reason) when its columns were not detected in the source.
pub fn missing_channels(available: &[DetectionMode], present: &[DetectionMode]) -> (r: Vec<
    (DetectionMode, Option<&'static str>),
>)
    ensures
        r@.len() == missing_modes(present@).len(),
        forall|k: int|
            0 <= k < r@.len() ==> {
                let (mode, reason) = #[trigger] r@[k];
                &&& mode == missing_modes(present@)[k]
                &&& if available@.contains(mode) {
                    reason is None
                } else {
                    reason matches Some(s) && s@ == undetected()
                }
            },
{
    let mut out: Vec<(DetectionMode, Option<&'static str>)> = Vec::new();
    let ghost all = seq![
        DetectionMode::Transmission,
        DetectionMode::Fluorescence,
        DetectionMode::Reference,
        DetectionMode::MuColumn,
    ];
    let ghost pred = |m: DetectionMode| !present@.contains(m);
    let mut k: usize = 0;
    while k < 4
        invariant
            k <= 4,
            all == seq![
                DetectionMode::Transmission,
                DetectionMode::Fluorescence,
                DetectionMode::Reference,
                DetectionMode::MuColumn,
            ],
            pred == (|m: DetectionMode| !present@.contains(m)),
            out@.len() == all.take(k as int).filter(pred).len(),
            forall|j: int|
                0 <= j < out@.len() ==> {
                    let (mode, reason) = #[trigger] out@[j];
                    &&& mode == all.take(k as int).filter(pred)[j]
                    &&& if available@.contains(mode) {
                        reason is None
                    } else {
                        reason matches Some(s) && s@ == undetected()
                    }
                },
        decreases 4 - k,
    {
        let mode = if k == 0 {
            DetectionMode::Transmission
        } else if k == 1 {
            DetectionMode::Fluorescence
        } else if k == 2 {
            DetectionMode::Reference
        } else {
            DetectionMode::MuColumn
        };
        assert(mode == all[k as int]);
        assert(all.take(k + 1).drop_last() =~= all.take(k as int));
        proof {
            reveal(Seq::filter);
        }
        if !contains_mode(present, mode) {
            let reason = if contains_mode(available, mode) {
                None
            } else {
                Some("Required columns were not detected")
            };
            out.push((mode, reason));
        }
        k = k + 1;
    }
    assert(all.take(4) =~= all);
    out
}


/// A group label is trimmed and must not be empty; duplicates are allowed.
pub fn validate_label(label: &str) -> (r: Result<String, &'static str>)
    ensures
        trimmed(label@).len() == 0 ==> (r matches Err(e) && e@ == "A group label cannot be empty"@),
        trimmed(label@).len() > 0 ==> (r matches Ok(s) && s@ == trimmed(label@)),
{
    let t = trim(label);
    if t.unicode_len() == 0 {
        Err("A group label cannot be empty")
    } else {
        Ok(t.to_owned())
    }
}

/// A group label change, as the journal records it for undo.
#[derive(Debug)]
pub struct LabelChange {
    pub id: u64,
    pub before: Option<String>,
    pub after: Option<String>,
}

/// The view of an optional string.
pub open spec fn opt_text(s: Option<String>) -> Option<Seq<char>> {
    match s {
        Some(t) => Some(t@),
        None => None,
    }
}

/// The custom label of `id`, if it has one.
pub open spec fn custom_label(labels: Map<u64, String>, id: u64) -> Option<Seq<char>> {
    if labels.contains_key(id) {
        Some(labels[id]@)
    } else {
        None
    }
}

/// What a rename stores: nothing for either default label, which is
/// presentation only, else the label itself.
pub open spec fn stored_label(label: Seq<char>, default_entry: Seq<char>, default_row: Seq<char>) -> Option<
    Seq<char>,
> {
    if label == default_entry || label == default_row {
        None
    } else {
        Some(label)
    }
}

/// Rename group `id` to `label`: a default label clears its custom label,
/// any other is stored. Returns the change for the journal, or `None` when
/// nothing changed.
pub fn apply_rename(
    labels: &mut BTreeMap<u64, String>,
    id: u64,
    label: String,
    default_entry: &str,
    default_row: &str,
) -> (r: Option<LabelChange>)
    ensures
        ({
            let before = custom_label(old(labels)@, id);
            let after = stored_label(label@, default_entry@, default_row@);
            &&& before == after ==> r is None && final(labels)@ == old(labels)@
            &&& before != after ==> (r matches Some(c) && c.id == id && opt_text(c.before) == before
                && opt_text(c.after) == after)
            &&& before != after && after is None ==> final(labels)@ == old(labels)@.remove(id)
            &&& before != after && after is Some ==> final(labels)@ == old(labels)@.insert(id, label)
        }),
{
    let before: Option<String> = match labels.get(&id) {
        Some(l) => Some(l.clone()),
        None => None,
    };
    let is_default = str_eq(label.as_str(), default_entry) || str_eq(label.as_str(), default_row);
    let unchanged = match &before {
        Some(b) => !is_default && str_eq(b.as_str(), label.as_str()),
        None => is_default,
    };
    if unchanged {
        return None;
    }
    if is_default {
        labels.remove(&id);
        Some(LabelChange { id, before, after: None })
    } else {
        let after = label.clone();
        labels.insert(id, label);
        Some(LabelChange { id, before, after: Some(after) })
    }
}

/// Committing a default label never stores custom metadata, and committing
/// the label already stored changes nothing.
pub proof fn law_default_labels_are_not_stored(
    labels: Map<u64, String>,
    id: u64,
    label: Seq<char>,
    default_entry: Seq<char>,
    default_row: Seq<char>,
)
    ensures
        (label == default_entry || label == default_row) ==> stored_label(label, default_entry, default_row) is None,
        custom_label(labels, id) == Some(label) && label != default_entry && label != default_row
            ==> stored_label(label, default_entry, default_row) == custom_label(labels, id),
{
}

/// Another import of the same source file: its configured mode and, for an
/// Auto import, the mode that detection resolved (`None` when it failed).
#[derive(Clone, Copy, Debug)]
pub struct SiblingImport {
    pub mode: DetectionMode,
    pub detected: Option<DetectionMode>,
}

/// The channel an import stands for: an Auto import its own detected mode.
pub open spec fn resolved_mode(s: SiblingImport) -> Option<DetectionMode> {
    if s.mode == DetectionMode::Auto {
        s.detected
    } else {
        Some(s.mode)
    }
}

/// The channels that the imports of a source already stand for, in order.
pub open spec fn present_modes(siblings: Seq<SiblingImport>) -> Seq<DetectionMode>
    decreases siblings.len(),
{
    if siblings.len() == 0 {
        seq![]
    } else {
        present_modes(siblings.drop_last()) + match resolved_mode(siblings.last()) {
            Some(m) => seq![m],
            None => seq![],
        }
    }
}

fn present_of(siblings: &Vec<SiblingImport>) -> (r: Vec<DetectionMode>)
    ensures
        r@ == present_modes(siblings@),
{
    let mut out: Vec<DetectionMode> = Vec::new();
    let n = siblings.len();
    let mut i: usize = 0;
    while i < n
        invariant
            n == siblings@.len(),
            i <= n,
            out@ == present_modes(siblings@.take(i as int)),
        decreases n - i,
    {
        let s = siblings[i];
        assert(siblings@.take(i + 1).drop_last() =~= siblings@.take(i as int));
        assert(siblings@.take(i + 1).last() == s);
        let resolved = if s.mode == DetectionMode::Auto {
            s.detected
        } else {
            Some(s.mode)
        };
        match resolved {
            Some(m) => {
                out.push(m);
            },
            None => {},
        }
        assert(out@ =~= present_modes(siblings@.take(i + 1)));
        i = i + 1;
    }
    assert(siblings@.take(n as int) =~= siblings@);
    out
}

impl MenuContext {
    /// Fill the channel submenu of a source: the channels its imports
    /// (`siblings`, each Auto one by its own detection) do not yet stand
    /// for, disabled where the target's detection (`available`, none when
    /// it failed) found no columns for them. Nothing else changes.
    pub fn detect_channels(&mut self, available: Option<&Vec<DetectionMode>>, siblings: &Vec<SiblingImport>)
        ensures
            ({
                let avail = match available {
                    Some(a) => a@,
                    None => Seq::<DetectionMode>::empty(),
                };
                let present = present_modes(siblings@);
                &&& final(self).channels@.len() == missing_modes(present).len()
                &&& forall|k: int|
                    0 <= k < final(self).channels@.len() ==> {
                        let (mode, reason) = #[trigger] final(self).channels@[k];
                        &&& mode == missing_modes(present)[k]
                        &&& if avail.contains(mode) {
                            reason is None
                        } else {
                            reason matches Some(s) && s@ == undetected()
                        }
                    }
            }),
            final(self).spectrum == old(self).spectrum && final(self).file == old(self).file
                && final(self).derived == old(self).derived && final(self).operation == old(self).operation
                && final(self).locked == old(self).locked && final(self).marked == old(self).marked
                && final(self).marks == old(self).marks && final(self).absorption == old(self).absorption
                && final(self).marked_absorption == old(self).marked_absorption
                && final(self).incompatible_marks == old(self).incompatible_marks
                && final(self).source_exists == old(self).source_exists && final(self).compare == old(self).compare,
    {
        let present = present_of(siblings);
        let none: Vec<DetectionMode> = Vec::new();
        let avail = match available {
            Some(a) => a,
            None => &none,
        };
        self.channels = missing_channels(avail.as_slice(), present.as_slice());
    }
}

/// The channel submenu offers exactly the detection modes the group does
/// not have yet, each once (automatic detection is never offered).
pub proof fn law_channel_menu_offers_each_missing_mode(present: Seq<DetectionMode>, m: DetectionMode)
    ensures
        missing_modes(present).contains(m) <==> (m != DetectionMode::Auto && !present.contains(m)),
        missing_modes(present).no_duplicates(),
{
    let all = seq![
        DetectionMode::Transmission,
        DetectionMode::Fluorescence,
        DetectionMode::Reference,
        DetectionMode::MuColumn,
    ];
    let pred = |x: DetectionMode| !present.contains(x);
    reveal_with_fuel(Seq::filter, 5);
    assert(m != DetectionMode::Auto ==> all.contains(m)) by {
        match m {
            DetectionMode::Transmission => assert(all[0] == m),
            DetectionMode::Fluorescence => assert(all[1] == m),
            DetectionMode::Reference => assert(all[2] == m),
            DetectionMode::MuColumn => assert(all[3] == m),
            DetectionMode::Auto => {},
        }
    }
    if missing_modes(present).contains(m) {
        all.lemma_filter_contains_rev(pred, m);
        assert(pred(all.filter(pred)[missing_modes(present).index_of(m)]));
        assert(m != DetectionMode::Auto);
    }
    if m != DetectionMode::Auto && !present.contains(m) {
        let i = all.index_of(m);
        all.lemma_filter_contains(pred, i);
    }
    assert(all.no_duplicates());
    assert(all.filter(pred).no_duplicates()) by {
        assert(all.drop_last().drop_last().drop_last().drop_last() =~= Seq::<DetectionMode>::empty());
    }
}

} // verus!
