//! App-authored receipts and permission rules; no model-authored receipt content.
use vstd::prelude::*;
use crate::text::{decimal, decimal_text, join, join_seq, str_eq, views};

verus! {

/// Processing stages of the analysis window.
#[derive(Clone, Copy, Debug, PartialEq, Eq, Structural)]
pub enum Stage {
    Data,
    Normalize,
    Background,
    Transform,
    Fit,
    Series,
    Publish,
}

impl Stage {
    pub open spec fn label(self) -> Seq<char> {
        match self {
            Stage::Data => "Data"@,
            Stage::Normalize => "Normalize"@,
            Stage::Background => "Background"@,
            Stage::Transform => "Transform"@,
            Stage::Fit => "Fit"@,
            Stage::Series => "Series"@,
            Stage::Publish => "Publish"@,
        }
    }

    /// The stage's display name.
    pub fn name(self) -> (r: &'static str)
        ensures
            r@ == self.label(),
    {
        match self {
            Stage::Data => "Data",
            Stage::Normalize => "Normalize",
            Stage::Background => "Background",
            Stage::Transform => "Transform",
            Stage::Fit => "Fit",
            Stage::Series => "Series",
            Stage::Publish => "Publish",
        }
    }
}

/// Read-only tools; every other tool, including unknown ones, edits.
pub open spec fn review_tool(tool: Seq<char>) -> bool {
    tool == "xray_get_state"@ || tool == "xray_get_plots"@ || tool == "xray_navigate"@ || tool
        == "xray_set_layout"@ || tool == "xray_search_structures"@
}

pub fn requires_edit(tool: &str) -> (r: bool)
    ensures
        r == !review_tool(tool@),
{
    !(str_eq(tool, "xray_get_state") || str_eq(tool, "xray_get_plots") || str_eq(
        tool,
        "xray_navigate",
    ) || str_eq(tool, "xray_set_layout") || str_eq(tool, "xray_search_structures"))
}

/// Edits apply only on a live connection, during a busy turn sent in edit mode.
pub fn changes_allowed(live: bool, turn_edit: bool, busy: bool) -> (r: bool)
    ensures
        r == (live && turn_edit && busy),
{
    live && turn_edit && busy
}

/// What a receipt reads of the analysis journal.
#[derive(Clone, Copy, Debug, PartialEq, Eq, Structural)]
pub struct JournalStatus {
    /// Some entry can be undone.
    pub has_undo: bool,
    /// Advances with every journal change that retires earlier receipts.
    pub receipt_revision: u64,
}

/// A receipt's journal token can undo while nothing runs and the journal is
/// exactly where the receipt left it.
pub open spec fn undo_allowed(token: Option<u64>, journal: JournalStatus, running: bool) -> bool {
    !running && journal.has_undo && token == Some(journal.receipt_revision)
}

pub fn undo_eligible(token: Option<u64>, journal: &JournalStatus, running: bool) -> (r: bool)
    ensures
        r == undo_allowed(token, *journal, running),
{
    !running && journal.has_undo && match token {
        Some(t) => t == journal.receipt_revision,
        None => false,
    }
}

/// A receipt offers Undo only for the journal revision it recorded and never
/// while a turn runs: once a later journal change (a manual edit, an undo or
/// redo, a new project's journal) moves the revision on, it stays retired.
pub proof fn law_undo_only_for_recorded_revision(token: u64, journal: JournalStatus, running: bool)
    ensures
        journal.receipt_revision != token ==> !undo_allowed(Some(token), journal, running),
        !undo_allowed(Some(token), journal, true),
        !undo_allowed(None, journal, running),
{
}

/// "This spectrum", or "Shared across {n} datasets".
pub open spec fn scope_text(shared: Option<usize>) -> Seq<char> {
    match shared {
        None => "This spectrum"@,
        Some(n) => "Shared across "@ + decimal(n as nat) + " datasets"@,
    }
}

pub fn scope_label(shared: Option<usize>) -> (r: String)
    ensures
        r@ == scope_text(shared),
{
    match shared {
        None => String::from_str("This spectrum"),
        Some(n) => String::from_str("Shared across ").concat(decimal_text(n as u64).as_str()).concat(
            " datasets",
        ),
    }
}

pub open spec fn processing_scope_text(target: Option<usize>) -> Seq<char> {
    if target is Some {
        "This spectrum"@
    } else {
        "Shared across all spectra without overrides"@
    }
}

pub fn processing_scope_label(target: Option<usize>) -> (r: &'static str)
    ensures
        r@ == processing_scope_text(target),
{
    if target.is_some() {
        "This spectrum"
    } else {
        "Shared across all spectra without overrides"
    }
}

/// A receipt can navigate to a catalog entry, or to the current spectrum
/// (`current`, as text) when that is the receipt's file.
pub fn navigation_target(file: &str, current: &str, catalog_index: Option<usize>) -> (r: Result<
    Option<usize>,
    String,
>)
    ensures
        (catalog_index is Some || current@ == file@) ==> r == Ok::<Option<usize>, String>(
            catalog_index,
        ),
        !(catalog_index is Some || current@ == file@) ==> (r is Err && r->Err_0@
            == "Spectrum must already be in the open catalog"@),
{
    if catalog_index.is_some() || str_eq(current, file) {
        Ok(catalog_index)
    } else {
        Err(String::from_str("Spectrum must already be in the open catalog"))
    }
}

/// History entries lack the complete source identity needed for a stale check.
pub fn select_history_result<T>(provenance: &mut Option<T>, selected: &mut Option<usize>, id: usize)
    ensures
        *final(provenance) is None,
        *final(selected) == Some(id),
{
    *provenance = None;
    *selected = Some(id);
}

pub open spec fn history_notice_text(has_provenance: bool, selected: Option<usize>) -> Option<
    Seq<char>,
> {
    match selected {
        Some(id) => if has_provenance {
            None
        } else {
            Some("Viewing history entry "@ + decimal(id as nat))
        },
        None => None,
    }
}

pub fn history_result_notice(has_provenance: bool, selected: Option<usize>) -> (r: Option<String>)
    ensures
        r is Some == history_notice_text(has_provenance, selected) is Some,
        r is Some ==> r->0@ == history_notice_text(has_provenance, selected)->0,
{
    match selected {
        Some(id) => if has_provenance {
            None
        } else {
            Some(String::from_str("Viewing history entry ").concat(decimal_text(id as u64).as_str()))
        },
        None => None,
    }
}

/// A scheduled recalculation's outcome; `None` while the output is pending.
/// A later edit supersedes the wait.
pub open spec fn completion_text(same_edit: bool, running: bool, output_matches: bool, error: bool) -> Option<
    Seq<char>,
> {
    if !same_edit {
        Some("Superseded by a later change"@)
    } else if running {
        None
    } else if error {
        Some("Recalculation failed"@)
    } else if output_matches {
        Some("Recalculation complete"@)
    } else {
        None
    }
}

pub fn completion(same_edit: bool, running: bool, output_matches: bool, error: bool) -> (r: Option<
    &'static str,
>)
    ensures
        r is Some == completion_text(same_edit, running, output_matches, error) is Some,
        r is Some ==> r->0@ == completion_text(same_edit, running, output_matches, error)->0,
{
    if !same_edit {
        Some("Superseded by a later change")
    } else if running {
        None
    } else if error {
        Some("Recalculation failed")
    } else if output_matches {
        Some("Recalculation complete")
    } else {
        None
    }
}


/// Where a receipt's Show action navigates.
#[derive(Clone, Debug, PartialEq)]
pub enum Navigation {
    /// A spectrum (by path) at a processing stage.
    Spectrum { spectrum: String, stage: Stage },
    /// The fit stage: its results (`results`) or its paths step.
    Fit { results: bool },
}

/// Plain-value model of a [`Navigation`].
pub enum NavigationView {
    Spectrum { spectrum: Seq<char>, stage: Stage },
    Fit { results: bool },
}

impl View for Navigation {
    type V = NavigationView;

    open spec fn view(&self) -> NavigationView {
        match self {
            Navigation::Spectrum { spectrum, stage } => NavigationView::Spectrum {
                spectrum: spectrum@,
                stage: *stage,
            },
            Navigation::Fit { results } => NavigationView::Fit { results: *results },
        }
    }
}

/// A receipt shown in the transcript for an app action.
#[derive(Clone, Debug, PartialEq)]
pub struct Receipt {
    pub header: String,
    pub lines: Vec<String>,
    pub scope: String,
    pub navigation: Navigation,
    pub journal: Option<u64>,
    pub state: String,
    /// Processing output identity; model receipts instead wait for the live preview.
    pub processing: Option<(u64, u64)>,
    pub history: Option<usize>,
    pub model: u64,
    pub undo_retired: bool,
}

/// Plain-value model of a [`Receipt`].
pub struct ReceiptView {
    pub header: Seq<char>,
    pub lines: Seq<Seq<char>>,
    pub scope: Seq<char>,
    pub navigation: NavigationView,
    pub journal: Option<u64>,
    pub state: Seq<char>,
    pub processing: Option<(u64, u64)>,
    pub history: Option<usize>,
    pub model: u64,
    pub undo_retired: bool,
}

impl View for Receipt {
    type V = ReceiptView;

    open spec fn view(&self) -> ReceiptView {
        ReceiptView {
            header: self.header@,
            lines: views(self.lines@),
            scope: self.scope@,
            navigation: self.navigation@,
            journal: self.journal,
            state: self.state@,
            processing: self.processing,
            history: self.history,
            model: self.model,
            undo_retired: self.undo_retired,
        }
    }
}

/// The state text of a receipt whose recalculation has not finished.
pub open spec fn recalculating() -> Seq<char> {
    "Recalculating…"@
}

/// The final path component of `path` as `std::path::Path::file_name`
/// computes it (lossily as text), if it has one.
pub uninterp spec fn file_name_of(path: Seq<char>) -> Option<Seq<char>>;

/// `std::path::Path::file_name` of `path`, as lossy text: the contract only
/// names its result.
#[verifier::external_body]
fn path_file_name(path: &str) -> (r: Option<String>)
    ensures
        match r {
            Some(n) => file_name_of(path@) == Some(n@),
            None => file_name_of(path@) is None,
        },
{
    std::path::Path::new(path).file_name().map(|s| s.to_string_lossy().into_owned())
}

/// The header of a processing receipt: the spectrum's file name (empty
/// when it has none) and the stage.
pub open spec fn header_text(file_name: Option<Seq<char>>, stage: Stage) -> Seq<char> {
    let name = match file_name {
        Some(n) => n,
        None => seq![],
    };
    name + " · "@ + stage.label()
}

/// The header of a processing receipt (see [`header_text`]).
pub fn change_header(file_name: Option<&str>, stage: Stage) -> (r: String)
    ensures
        r@ == header_text(
            match file_name {
                Some(n) => Some(n@),
                None => None,
            },
            stage,
        ),
{
    let name = match file_name {
        Some(n) => String::from_str(n),
        None => String::new(),
    };
    name.concat(" · ").concat(stage.name())
}

/// The receipt's lines, in order, each non-empty part on its own line:
/// header, change lines, scope and state.
pub open spec fn receipt_text(r: ReceiptView) -> Seq<char> {
    join_seq(
        seq![r.header, join_seq(r.lines, "\n"@), r.scope, r.state].filter(
            |p: Seq<char>| p.len() > 0,
        ),
        "\n"@,
    )
}

impl Receipt {
    /// Parameter values apply synchronously; a cached preview error is unrelated.
    pub fn finish_parameter_edit(&mut self, preview_loading: bool)
        ensures
            preview_loading ==> final(self)@ == old(self)@,
            !preview_loading ==> final(self)@ == (ReceiptView {
                state: "Recalculation complete"@,
                ..old(self)@
            }),
    {
        if !preview_loading {
            self.state = String::from_str("Recalculation complete");
        }
    }

    /// A receipt for a processing change of `spectrum` at `stage`.
    pub fn change(spectrum: &str, stage: Stage, lines: Vec<String>, journal: u64) -> (r: Receipt)
        ensures
            r@ == (ReceiptView {
                header: header_text(file_name_of(spectrum@), stage),
                lines: views(lines@),
                scope: scope_text(None),
                navigation: NavigationView::Spectrum { spectrum: spectrum@, stage },
                journal: Some(journal),
                state: recalculating(),
                processing: None,
                history: None,
                model: 0,
                undo_retired: false,
            }),
    {
        let name = path_file_name(spectrum);
        let header = match &name {
            Some(n) => change_header(Some(n.as_str()), stage),
            None => change_header(None, stage),
        };
        Receipt {
            header,
            lines,
            scope: scope_label(None),
            navigation: Navigation::Spectrum { spectrum: String::from_str(spectrum), stage },
            journal: Some(journal),
            state: String::from_str("Recalculating…"),
            processing: None,
            history: None,
            model: 0,
            undo_retired: false,
        }
    }

    /// A receipt for a finished job; it navigates to the fit results when
    /// `history` names a recorded fit, else to the fit paths.
    pub fn job(header: String, history: Option<usize>) -> (r: Receipt)
        ensures
            r@ == (ReceiptView {
                header: header@,
                lines: seq![],
                scope: seq![],
                navigation: NavigationView::Fit { results: history is Some },
                journal: None,
                state: seq![],
                processing: None,
                history,
                model: 0,
                undo_retired: false,
            }),
    {
        let r = Receipt {
            header,
            lines: Vec::new(),
            scope: String::new(),
            navigation: Navigation::Fit { results: history.is_some() },
            journal: None,
            state: String::new(),
            processing: None,
            history,
            model: 0,
            undo_retired: false,
        };
        assert(views(r.lines@) =~= seq![]);
        r
    }

    /// Undo is offered while the receipt is current: not retired, made for
    /// the current fit model, finished recalculating, and eligible in the journal.
    pub open spec fn undo_available(r: ReceiptView, journal: JournalStatus, running: bool, model: u64) -> bool {
        !r.undo_retired && r.model == model && r.state != recalculating() && undo_allowed(
            r.journal,
            journal,
            running,
        )
    }

    pub fn can_undo(&self, journal: &JournalStatus, running: bool, model: u64) -> (r: bool)
        ensures
            r == Receipt::undo_available(self@, *journal, running, model),
    {
        !self.undo_retired && self.model == model && !str_eq(self.state.as_str(), "Recalculating…")
            && undo_eligible(self.journal, journal, running)
    }

    /// A copy of the receipt.
    pub fn duplicate(&self) -> (r: Receipt)
        ensures
            r@ == self@,
    {
        let mut lines: Vec<String> = Vec::new();
        let n = self.lines.len();
        let mut i: usize = 0;
        while i < n
            invariant
                n == self.lines@.len(),
                i <= n,
                views(lines@) == views(self.lines@).take(i as int),
            decreases n - i,
        {
            let ghost before = lines@;
            lines.push(self.lines[i].clone());
            assert(views(lines@) =~= views(before).push(self.lines@[i as int]@));
            assert(views(self.lines@).take(i + 1) =~= views(self.lines@).take(i as int).push(
                self.lines@[i as int]@,
            ));
            i = i + 1;
        }
        assert(views(self.lines@).take(n as int) =~= views(self.lines@));
        let navigation = match &self.navigation {
            Navigation::Spectrum { spectrum, stage } => Navigation::Spectrum {
                spectrum: spectrum.clone(),
                stage: *stage,
            },
            Navigation::Fit { results } => Navigation::Fit { results: *results },
        };
        Receipt {
            header: self.header.clone(),
            lines,
            scope: self.scope.clone(),
            navigation,
            journal: self.journal,
            state: self.state.clone(),
            processing: self.processing,
            history: self.history,
            model: self.model,
            undo_retired: self.undo_retired,
        }
    }

    /// Refresh against the studio's state (see [`refreshed`]).
    pub fn refresh(&mut self, s: &StudioStatus)
        ensures
            final(self)@ == refreshed(old(self)@, *s),
    {
        let retired = self.undo_retired || self.model != s.model || match self.journal {
            Some(j) => j != s.journal_revision,
            None => true,
        };
        self.undo_retired = retired;
        if !str_eq(self.state.as_str(), "Recalculating…") {
            return;
        }
        let outcome = match self.processing {
            Some((stamp, generation)) => {
                let same_spectrum = match &self.navigation {
                    Navigation::Spectrum { spectrum, .. } => str_eq(
                        spectrum.as_str(),
                        s.current_path.as_str(),
                    ),
                    Navigation::Fit { .. } => false,
                };
                completion(
                    same_spectrum && s.params_fingerprint == stamp,
                    s.load_running || s.recompute_dirty || s.generation == generation,
                    s.spectrum_fingerprint == stamp && s.spectrum_is_current,
                    s.plots_stale,
                )
            },
            None => completion(!retired, s.fit_loading, true, s.fit_failed),
        };
        match outcome {
            Some(state) => {
                self.state = String::from_str(state);
            },
            None => {},
        }
    }

    /// The receipt as plain text.
    pub fn text(&self) -> (r: String)
        ensures
            r@ == receipt_text(self@),
    {
        let body = join(&self.lines, "\n");
        let mut parts: Vec<String> = Vec::new();
        let ghost all = seq![self.header@, body@, self.scope@, self.state@];
        if self.header.unicode_len() > 0 {
            parts.push(self.header.clone());
        }
        if body.unicode_len() > 0 {
            parts.push(body);
        }
        if self.scope.unicode_len() > 0 {
            parts.push(self.scope.clone());
        }
        if self.state.unicode_len() > 0 {
            parts.push(self.state.clone());
        }
        proof {
            reveal_with_fuel(Seq::filter, 5);
            assert(all.filter(|p: Seq<char>| p.len() > 0) =~= views(parts@));
        }
        join(&parts, "\n")
    }
}


/// What the studio reports when the transcript's receipts are refreshed.
pub struct StudioStatus {
    /// Fingerprint of the current fit model.
    pub model: u64,
    /// The journal's current receipt revision.
    pub journal_revision: u64,
    /// The current spectrum's path, as text.
    pub current_path: String,
    /// Fingerprint of the current processing parameters.
    pub params_fingerprint: u64,
    pub load_running: bool,
    pub recompute_dirty: bool,
    /// The current recalculation generation.
    pub generation: u64,
    /// Fingerprint of the parameters that produced the shown spectrum.
    pub spectrum_fingerprint: u64,
    /// The shown spectrum is the current one.
    pub spectrum_is_current: bool,
    /// The plots are stale after a failed recalculation.
    pub plots_stale: bool,
    /// The fit preview is loading.
    pub fit_loading: bool,
    /// The fit preview failed.
    pub fit_failed: bool,
}

/// The receipt after a refresh against `s`: its undo retires once the model
/// or the journal moved on, and a receipt still recalculating settles when
/// its edit was superseded, its output arrived or the recalculation failed.
pub open spec fn refreshed(r: ReceiptView, s: StudioStatus) -> ReceiptView {
    let retired = r.undo_retired || r.model != s.model || r.journal != Some(s.journal_revision);
    let kept = ReceiptView { undo_retired: retired, ..r };
    if r.state != recalculating() {
        kept
    } else {
        let outcome = match r.processing {
            Some((stamp, generation)) => completion_text(
                (r.navigation matches NavigationView::Spectrum { spectrum, .. } && spectrum
                    == s.current_path@) && s.params_fingerprint == stamp,
                s.load_running || s.recompute_dirty || s.generation == generation,
                s.spectrum_fingerprint == stamp && s.spectrum_is_current,
                s.plots_stale,
            ),
            None => completion_text(!retired, s.fit_loading, true, s.fit_failed),
        };
        match outcome {
            Some(state) => ReceiptView { state, ..kept },
            None => kept,
        }
    }
}

/// A refresh never revives a retired undo and never rewrites a receipt that
/// has settled; it changes nothing but the undo flag and the state.
pub proof fn law_refresh_keeps_settled_receipts(r: ReceiptView, s: StudioStatus)
    ensures
        r.undo_retired ==> refreshed(r, s).undo_retired,
        r.state != recalculating() ==> refreshed(r, s).state == r.state,
        refreshed(r, s).header == r.header && refreshed(r, s).lines == r.lines
            && refreshed(r, s).navigation == r.navigation && refreshed(r, s).journal == r.journal,
{
}

/// A later edit supersedes a pending processing receipt: once the current
/// parameters differ from those it scheduled, a refresh settles it as
/// superseded.
pub proof fn law_later_edit_supersedes(r: ReceiptView, s: StudioStatus)
    requires
        r.state == recalculating(),
        r.processing matches Some((stamp, _)) && s.params_fingerprint != stamp,
    ensures
        refreshed(r, s).state == "Superseded by a later change"@,
{
}

/// Undo retires exactly when the fit model or the journal has moved on
/// from what the receipt recorded (and stays retired); refreshing twice
/// against the same status is the same as refreshing once.
pub proof fn law_refresh_retires_undo_when_history_moves(r: ReceiptView, s: StudioStatus)
    ensures
        refreshed(r, s).undo_retired <==> (r.undo_retired || r.model != s.model || r.journal != Some(
            s.journal_revision,
        )),
        refreshed(refreshed(r, s), s) == refreshed(r, s),
{
}

/// A processing receipt still recalculating for the current spectrum and
/// parameters stays so while processing runs, and otherwise settles as
/// failed when the plots went stale, or complete when the shown spectrum
/// came from its parameters.
pub proof fn law_processing_receipt_settles_by_its_outcome(r: ReceiptView, s: StudioStatus, stamp: u64, generation: u64)
    requires
        r.state == recalculating(),
        r.processing == Some((stamp, generation)),
        r.navigation matches NavigationView::Spectrum { spectrum, .. } && spectrum == s.current_path@,
        s.params_fingerprint == stamp,
    ensures
        (s.load_running || s.recompute_dirty || s.generation == generation) ==> refreshed(r, s).state
            == recalculating(),
        !(s.load_running || s.recompute_dirty || s.generation == generation) && s.plots_stale ==> refreshed(
            r,
            s,
        ).state == "Recalculation failed"@,
        !(s.load_running || s.recompute_dirty || s.generation == generation) && !s.plots_stale && (
        s.spectrum_fingerprint == stamp && s.spectrum_is_current) ==> refreshed(r, s).state
            == "Recalculation complete"@,
{
}

/// Whether two lists of lines are equal.
fn lines_equal(a: &Vec<String>, b: &Vec<String>) -> (r: bool)
    ensures
        r == (views(a@) == views(b@)),
{
    if a.len() != b.len() {
        assert(views(a@).len() != views(b@).len());
        return false;
    }
    let n = a.len();
    let mut i: usize = 0;
    while i < n
        invariant
            n == a@.len(),
            n == b@.len(),
            i <= n,
            forall|k: int| 0 <= k < i ==> a@[k]@ == b@[k]@,
        decreases n - i,
    {
        if !str_eq(a[i].as_str(), b[i].as_str()) {
            assert(views(a@)[i as int] != views(b@)[i as int]);
            return false;
        }
        i = i + 1;
    }
    assert(views(a@) =~= views(b@));
    true
}

/// Whether two receipts are equal.
pub fn same_receipt(a: &Receipt, b: &Receipt) -> (r: bool)
    ensures
        r == (a@ == b@),
{
    let navigation = match (&a.navigation, &b.navigation) {
        (
            Navigation::Spectrum { spectrum: s1, stage: t1 },
            Navigation::Spectrum { spectrum: s2, stage: t2 },
        ) => str_eq(s1.as_str(), s2.as_str()) && *t1 == *t2,
        (Navigation::Fit { results: r1 }, Navigation::Fit { results: r2 }) => *r1 == *r2,
        _ => false,
    };
    let journal = match (a.journal, b.journal) {
        (Some(x), Some(y)) => x == y,
        (None, None) => true,
        _ => false,
    };
    let processing = match (a.processing, b.processing) {
        (Some((x1, x2)), Some((y1, y2))) => x1 == y1 && x2 == y2,
        (None, None) => true,
        _ => false,
    };
    let history = match (a.history, b.history) {
        (Some(x), Some(y)) => x == y,
        (None, None) => true,
        _ => false,
    };
    let same = str_eq(a.header.as_str(), b.header.as_str()) && lines_equal(&a.lines, &b.lines)
        && str_eq(a.scope.as_str(), b.scope.as_str()) && navigation && journal && str_eq(
        a.state.as_str(),
        b.state.as_str(),
    ) && processing && history && a.model == b.model && a.undo_retired == b.undo_retired;
    proof {
        if same {
            assert(a@.lines =~= b@.lines);
        }
    }
    same
}

/// Undo is offered exactly when nothing runs, the journal can undo, and the
/// receipt recorded the journal's current revision.
pub proof fn law_undo_exactly_at_recorded_revision(token: Option<u64>, journal: JournalStatus, running: bool)
    ensures
        undo_allowed(token, journal, running) <==> (!running && journal.has_undo && token is Some
            && token->Some_0 == journal.receipt_revision),
{
}

/// A recalculation's wait ends as superseded by any later edit, otherwise
/// not before processing stops; then a failure is reported as such, and a
/// matching output as complete.
pub proof fn law_recalculation_outcomes(same_edit: bool, running: bool, output_matches: bool, error: bool)
    ensures
        !same_edit ==> completion_text(same_edit, running, output_matches, error) == Some("Superseded by a later change"@),
        same_edit && running ==> completion_text(same_edit, running, output_matches, error) is None,
        same_edit && !running && error ==> completion_text(same_edit, running, output_matches, error) == Some(
            "Recalculation failed"@,
        ),
        same_edit && !running && !error ==> (completion_text(same_edit, running, output_matches, error)
            == if output_matches {
            Some("Recalculation complete"@)
        } else {
            None
        }),
{
}

} // verus!
