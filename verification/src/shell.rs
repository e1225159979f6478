//! State decisions for the Assistant shell, independent of any window system.
use vstd::prelude::*;
use crate::text::{first_piece, split_on, split_pieces, str_eq};
use crate::json::{Json, JsonView, as_text, at, field, text_of};

verus! {

/// Where the Assistant is shown.
#[derive(Clone, Copy, Debug, PartialEq, Eq, Structural)]
pub enum AssistantHost {
    Closed,
    Docked,
    PoppedOut,
}

/// Requests that move the Assistant between hosts.
#[derive(Clone, Copy, Debug, PartialEq, Eq, Structural)]
pub enum HostAction {
    Toggle { prefer_docked: bool },
    PopOut,
    Dock,
    Close,
}

impl AssistantHost {
    /// The host after `action`.
    pub open spec fn next(self, action: HostAction) -> AssistantHost {
        match action {
            HostAction::Toggle { prefer_docked } => match self {
                AssistantHost::Closed => if prefer_docked {
                    AssistantHost::Docked
                } else {
                    AssistantHost::PoppedOut
                },
                AssistantHost::PoppedOut => AssistantHost::Docked,
                AssistantHost::Docked => AssistantHost::Closed,
            },
            HostAction::PopOut => AssistantHost::PoppedOut,
            HostAction::Dock => AssistantHost::Docked,
            HostAction::Close => match self {
                AssistantHost::PoppedOut => AssistantHost::Docked,
                _ => AssistantHost::Closed,
            },
        }
    }

    pub fn transition(self, action: HostAction) -> (r: AssistantHost)
        ensures
            r == self.next(action),
    {
        match action {
            HostAction::Toggle { prefer_docked } => match self {
                AssistantHost::Closed => if prefer_docked {
                    AssistantHost::Docked
                } else {
                    AssistantHost::PoppedOut
                },
                AssistantHost::PoppedOut => AssistantHost::Docked,
                AssistantHost::Docked => AssistantHost::Closed,
            },
            HostAction::PopOut => AssistantHost::PoppedOut,
            HostAction::Dock => AssistantHost::Docked,
            HostAction::Close => match self {
                AssistantHost::PoppedOut => AssistantHost::Docked,
                _ => AssistantHost::Closed,
            },
        }
    }
}


/// Side panels of the analysis window.
#[derive(Clone, Copy, Debug, PartialEq, Eq, Structural)]
pub enum SidePanel {
    Groups,
    Inspector,
}

/// Which groups the stage plots show.
#[derive(Clone, Copy, Debug, PartialEq, Eq, Structural)]
pub enum PlotScope {
    Current,
    Marked,
}

/// A layout change the assistant asks for (`xray_set_layout`); absent or
/// ill-typed arguments leave that part of the layout alone.
#[derive(Clone, Copy, Debug, PartialEq, Eq, Structural)]
pub struct LayoutRequest {
    pub focus_app: bool,
    pub file_browser: Option<bool>,
    pub inspector: Option<bool>,
    pub plot_scope: Option<PlotScope>,
}

/// A boolean argument.
pub open spec fn bool_arg(args: JsonView, key: Seq<char>) -> Option<bool> {
    match at(args, key) {
        JsonView::Bool(b) => Some(b),
        _ => None,
    }
}

/// The layout change that arguments ask for: "marked" selects the marked
/// groups, any other scope text the current one.
pub open spec fn layout_of(args: JsonView) -> LayoutRequest {
    LayoutRequest {
        focus_app: bool_arg(args, "focus_app"@) == Some(true),
        file_browser: bool_arg(args, "file_browser"@),
        inspector: bool_arg(args, "inspector"@),
        plot_scope: match as_text(at(args, "plot_scope"@)) {
            Some(s) => Some(
                if s == "marked"@ {
                    PlotScope::Marked
                } else {
                    PlotScope::Current
                },
            ),
            None => None,
        },
    }
}

fn bool_field(args: &Json, key: &str) -> (r: Option<bool>)
    ensures
        r == bool_arg(args@, key@),
{
    match field(Some(args), key) {
        Some(Json::Bool(b)) => Some(*b),
        _ => None,
    }
}

/// Read the layout change from the tool's arguments.
pub fn layout_request(args: &Json) -> (r: LayoutRequest)
    ensures
        r == layout_of(args@),
{
    let focus_app = match bool_field(args, "focus_app") {
        Some(b) => b,
        None => false,
    };
    let plot_scope = match field(Some(args), "plot_scope") {
        Some(v) => match text_of(v) {
            Some(s) => Some(
                if str_eq(s, "marked") {
                    PlotScope::Marked
                } else {
                    PlotScope::Current
                },
            ),
            None => None,
        },
        None => None,
    };
    LayoutRequest {
        focus_app,
        file_browser: bool_field(args, "file_browser"),
        inspector: bool_field(args, "inspector"),
        plot_scope,
    }
}

/// The panels after a layout request, and the panel opened last: a panel
/// the request shows becomes the last opened (the inspector when both are).
pub open spec fn laid_out(req: LayoutRequest, panels: PanelMemory, last: Option<SidePanel>) -> (
    PanelMemory,
    Option<SidePanel>,
) {
    let p = PanelMemory {
        file_browser: match req.file_browser {
            Some(b) => b,
            None => panels.file_browser,
        },
        inspector: match req.inspector {
            Some(b) => b,
            None => panels.inspector,
        },
    };
    let l = if req.inspector == Some(true) {
        Some(SidePanel::Inspector)
    } else if req.file_browser == Some(true) {
        Some(SidePanel::Groups)
    } else {
        last
    };
    (p, l)
}

/// Apply a layout request to the panels.
pub fn apply_layout(req: &LayoutRequest, panels: PanelMemory, last: Option<SidePanel>) -> (r: (
    PanelMemory,
    Option<SidePanel>,
))
    ensures
        r == laid_out(*req, panels, last),
{
    let mut p = panels;
    let mut l = last;
    if let Some(show) = req.file_browser {
        p.file_browser = show;
        if show {
            l = Some(SidePanel::Groups);
        }
    }
    if let Some(show) = req.inspector {
        p.inspector = show;
        if show {
            l = Some(SidePanel::Inspector);
        }
    }
    (p, l)
}

/// A layout request sets exactly the panels it names and leaves the others
/// as they were; a panel it shows becomes the last opened; applying it
/// again changes nothing; arguments that name nothing ask for nothing.
pub proof fn law_layout_sets_only_what_it_names(req: LayoutRequest, panels: PanelMemory, last: Option<SidePanel>)
    ensures
        ({
            let (p, l) = laid_out(req, panels, last);
            &&& p.file_browser == match req.file_browser {
                Some(b) => b,
                None => panels.file_browser,
            }
            &&& p.inspector == match req.inspector {
                Some(b) => b,
                None => panels.inspector,
            }
            &&& (req.file_browser == Some(true) || req.inspector == Some(true)) ==> l is Some
            &&& (req.file_browser != Some(true) && req.inspector != Some(true)) ==> l == last
            &&& laid_out(req, p, l) == (p, l)
        }),
        layout_of(JsonView::Object(seq![])) == (LayoutRequest {
            focus_app: false,
            file_browser: None,
            inspector: None,
            plot_scope: None,
        }),
{
}

/// Which side panels are visible (or remembered for restoring).
#[derive(Clone, Copy, Debug, PartialEq, Eq, Structural)]
pub struct PanelMemory {
    pub file_browser: bool,
    pub inspector: bool,
}

impl Default for PanelMemory {
    fn default() -> (r: PanelMemory)
        ensures
            r == PanelMemory::none(),
    {
        PanelMemory { file_browser: false, inspector: false }
    }
}

impl PanelMemory {
    /// No side panel.
    pub open spec fn none() -> PanelMemory {
        PanelMemory { file_browser: false, inspector: false }
    }

    /// Both side panels.
    pub open spec fn both() -> PanelMemory {
        PanelMemory { file_browser: true, inspector: true }
    }

    pub open spec fn is_none(self) -> bool {
        !self.file_browser && !self.inspector
    }

    /// The panels shown after toggling, given the panels `current` shown now.
    pub open spec fn toggled(self, current: PanelMemory) -> PanelMemory {
        if current.is_none() {
            if self.is_none() {
                PanelMemory::both()
            } else {
                self
            }
        } else {
            PanelMemory::none()
        }
    }

    /// The memory kept after toggling away from `current`.
    pub open spec fn remembered(self, current: PanelMemory) -> PanelMemory {
        if current.is_none() {
            self
        } else {
            current
        }
    }

    /// Hide the visible panels (remembering them), or restore the remembered
    /// ones when none is visible; with nothing remembered, show both.
    pub fn toggle(&mut self, current: PanelMemory) -> (r: PanelMemory)
        ensures
            r == old(self).toggled(current),
            *final(self) == old(self).remembered(current),
    {
        if !current.file_browser && !current.inspector {
            if !self.file_browser && !self.inspector {
                PanelMemory { file_browser: true, inspector: true }
            } else {
                *self
            }
        } else {
            *self = current;
            PanelMemory { file_browser: false, inspector: false }
        }
    }
}

/// Enter and Space activate a focused control unless a modifier is held.
pub fn control_key_activates(key: &str, modified: bool) -> (r: bool)
    ensures
        r == (!modified && (key@ == "enter"@ || key@ == "space"@)),
{
    !modified && (str_eq(key, "enter") || str_eq(key, "space"))
}

/// Where Tab moves keyboard focus.
#[derive(Debug, PartialEq, Eq, Structural)]
pub enum FocusMove {
    Next,
    Previous,
}

/// The control that Tab (or Shift+Tab, `backward`) focuses in a dialog of
/// `len` controls, from the focused one (`current`), wrapping around; the
/// first (or last) when none is focused; none in an empty dialog.
pub open spec fn focus_cycle_of(len: usize, current: Option<usize>, backward: bool) -> Option<usize> {
    if len == 0 {
        None
    } else {
        match current {
            Some(i) => if backward {
                Some(((i + len - 1) % (len as int)) as usize)
            } else {
                Some(((i + 1) % (len as int)) as usize)
            },
            None => if backward {
                Some((len - 1) as usize)
            } else {
                Some(0)
            },
        }
    }
}

/// The control that Tab or Shift+Tab focuses (see [`focus_cycle_of`]).
pub fn focus_cycle(len: usize, current: Option<usize>, backward: bool) -> (r: Option<usize>)
    requires
        current matches Some(i) ==> i < len,
    ensures
        r == focus_cycle_of(len, current, backward),
{
    if len == 0 {
        return None;
    }
    match current {
        Some(i) => {
            if backward {
                let r = if i == 0 {
                    len - 1
                } else {
                    i - 1
                };
                assert(r == (i + len - 1) % (len as int)) by (nonlinear_arith)
                    requires
                        i < len,
                        r == (if i == 0 {
                            len - 1
                        } else {
                            i - 1
                        }),
                ;
                Some(r)
            } else {
                let r = if i + 1 == len {
                    0
                } else {
                    i + 1
                };
                assert(r == (i + 1) % (len as int)) by (nonlinear_arith)
                    requires
                        i < len,
                        r == (if i + 1 == len {
                            0
                        } else {
                            i + 1
                        }),
                ;
                Some(r)
            }
        },
        None => {
            if backward {
                Some(len - 1)
            } else {
                Some(0)
            }
        },
    }
}

/// Shift+Tab undoes Tab: moving focus on and back returns to the control
/// that had it.
pub proof fn law_focus_back_undoes_forward(len: usize, i: usize)
    requires
        i < len,
    ensures
        focus_cycle_of(len, focus_cycle_of(len, Some(i), false), true) == Some(i),
        focus_cycle_of(len, focus_cycle_of(len, Some(i), true), false) == Some(i),
{
    let f = ((i + 1) % (len as int)) as usize;
    let b = ((i + len - 1) % (len as int)) as usize;
    assert(((f + len - 1) % (len as int)) == i) by (nonlinear_arith)
        requires
            i < len,
            f == (i + 1) % (len as int),
    ;
    assert(((b + 1) % (len as int)) == i) by (nonlinear_arith)
        requires
            i < len,
            b == (i + len - 1) % (len as int),
    ;
}

/// Tab reaches controls in dialogs as in the main workspace: Tab moves
/// focus on, Shift+Tab back; with Control, Command or Alt held, or for any
/// other key, focus stays and the key goes on to others.
pub fn tab_navigation(key: &str, control: bool, platform: bool, alt: bool, shift: bool) -> (r: Option<
    FocusMove,
>)
    ensures
        r == (if key@ == "tab"@ && !control && !platform && !alt {
            Some(
                if shift {
                    FocusMove::Previous
                } else {
                    FocusMove::Next
                },
            )
        } else {
            None
        }),
{
    if str_eq(key, "tab") && !control && !platform && !alt {
        if shift {
            Some(FocusMove::Previous)
        } else {
            Some(FocusMove::Next)
        }
    } else {
        None
    }
}

/// The model picker handles every key except Escape while it is closed.
pub fn model_picker_handles_key(open: bool, key: &str) -> (r: bool)
    ensures
        r == (open || key@ != "escape"@),
{
    open || !str_eq(key, "escape")
}

/// Which Assistant controls are enabled.
#[derive(Debug, PartialEq, Eq, Structural)]
pub struct ControlState {
    pub send: bool,
    pub composer: bool,
    pub preferences: bool,
    pub starters: bool,
    pub navigation: bool,
    pub stop: bool,
    pub copy: bool,
    pub close: bool,
}

impl ControlState {
    /// The controls for an analysis window that is open or closed, a
    /// connection, a sign-in and a running turn.
    pub open spec fn of(analysis_open: bool, connected: bool, signed_in: bool, busy: bool) -> ControlState {
        let ready = analysis_open && connected && signed_in;
        ControlState {
            send: ready && !busy,
            composer: analysis_open,
            preferences: analysis_open && !busy,
            starters: ready && !busy,
            navigation: analysis_open,
            stop: ready && busy,
            copy: true,
            close: !analysis_open,
        }
    }

    pub fn derive(analysis_open: bool, connected: bool, signed_in: bool, busy: bool) -> (r: ControlState)
        ensures
            r == ControlState::of(analysis_open, connected, signed_in, busy),
    {
        let ready = analysis_open && connected && signed_in;
        ControlState {
            send: ready && !busy,
            composer: analysis_open,
            preferences: analysis_open && !busy,
            starters: ready && !busy,
            navigation: analysis_open,
            stop: ready && busy,
            copy: true,
            close: !analysis_open,
        }
    }
}


/// Label of starter prompt `i`.
pub open spec fn starter_label(i: int) -> Seq<char> {
    if i == 0 {
        "Check processing"@
    } else if i == 1 {
        "Review fit setup"@
    } else if i == 2 {
        "Summarize latest fit"@
    } else if i == 3 {
        "Explain this spectrum"@
    } else {
        "Suggest a fit model"@
    }
}

/// Prompt text of starter prompt `i`.
pub open spec fn starter_prompt(i: int) -> Seq<char> {
    if i == 0 {
        "Check the current spectrum's processing. Review normalization, background subtraction, and transform settings; explain any concerns before proposing changes."@
    } else if i == 1 {
        "Review the current spectrum's fit setup, including paths, parameter constraints, and fit ranges. Explain any concerns before proposing changes."@
    } else if i == 2 {
        "Summarize the latest recorded fit for the current spectrum, including fit quality, important estimates, uncertainties, and limitations."@
    } else if i == 3 {
        "Explain the current spectrum and the active processing stage. Describe what the data can tell us and any limitations."@
    } else {
        "Suggest a fit model using the available paths for the current spectrum. Explain path choices and parameter constraints before proposing changes."@
    }
}

/// The number of starter prompts.
pub const STARTER_COUNT: usize = 5;

/// Starter prompt `i` as a (label, prompt) pair.
pub fn starter(i: usize) -> (r: (&'static str, &'static str))
    requires
        i < STARTER_COUNT,
    ensures
        r.0@ == starter_label(i as int),
        r.1@ == starter_prompt(i as int),
{
    if i == 0 {
        (
            "Check processing",
            "Check the current spectrum's processing. Review normalization, background subtraction, and transform settings; explain any concerns before proposing changes.",
        )
    } else if i == 1 {
        (
            "Review fit setup",
            "Review the current spectrum's fit setup, including paths, parameter constraints, and fit ranges. Explain any concerns before proposing changes.",
        )
    } else if i == 2 {
        (
            "Summarize latest fit",
            "Summarize the latest recorded fit for the current spectrum, including fit quality, important estimates, uncertainties, and limitations.",
        )
    } else if i == 3 {
        (
            "Explain this spectrum",
            "Explain the current spectrum and the active processing stage. Describe what the data can tell us and any limitations.",
        )
    } else {
        (
            "Suggest a fit model",
            "Suggest a fit model using the available paths for the current spectrum. Explain path choices and parameter constraints before proposing changes.",
        )
    }
}

/// Which starter prompts are offered for the available data: processing
/// always, then the fit-model or fit-review prompt (or an explanation when
/// there are no paths), then a fit summary when a fit exists.
pub open spec fn starter_choice(spectrum: bool, paths: bool, fit: bool) -> Seq<int> {
    if !spectrum {
        seq![]
    } else {
        seq![0int] + seq![if paths { if fit { 1int } else { 4int } } else { 3int }] + if fit {
            seq![2int]
        } else {
            seq![]
        }
    }
}

pub fn task_starters(spectrum: bool, paths: bool, fit: bool) -> (r: Vec<(&'static str, &'static str)>)
    ensures
        r@.len() == starter_choice(spectrum, paths, fit).len(),
        forall|k: int|
            0 <= k < r@.len() ==> #[trigger] r@[k].0@ == starter_label(
                starter_choice(spectrum, paths, fit)[k],
            ) && r@[k].1@ == starter_prompt(starter_choice(spectrum, paths, fit)[k]),
{
    let mut starters: Vec<(&'static str, &'static str)> = Vec::new();
    if !spectrum {
        return starters;
    }
    starters.push(starter(0));
    if paths {
        starters.push(starter(if fit { 1 } else { 4 }));
    } else {
        starters.push(starter(3));
    }
    if fit {
        starters.push(starter(2));
    }
    starters
}

/// The separator between the parts of an account label.
pub open spec fn account_separator() -> Seq<char> {
    " · "@
}

/// Compact status: the provider, followed by the plan for ChatGPT accounts
/// (`ChatGPT · email · plan`), dropping the email.
pub open spec fn account_status_text(label: Seq<char>) -> Seq<char> {
    let parts = split_on(label, account_separator());
    if parts[0] == "ChatGPT"@ && parts.len() >= 3 {
        "ChatGPT · "@ + parts.last()
    } else {
        parts[0]
    }
}

/// Compact connection status, omitting the email retained in the disclosure.
pub fn account_status(label: &str) -> (r: String)
    ensures
        r@ == account_status_text(label@),
{
    proof {
        reveal_strlit(" · ");
        crate::text::lemma_split_nonempty(label@, account_separator(), 0);
    }
    let parts = split_pieces(label, " · ");
    if str_eq(parts[0], "ChatGPT") && parts.len() >= 3 {
        let head = String::from_str("ChatGPT · ");
        head.concat(parts[parts.len() - 1])
    } else {
        parts[0].to_owned()
    }
}

/// Shown in place of the conversation once the analysis window is closed.
pub open spec fn analysis_closed_text() -> Seq<char> {
    "Analysis closed — conversation kept for copying"@
}

pub fn analysis_closed() -> (r: &'static str)
    ensures
        r@ == analysis_closed_text(),
{
    "Analysis closed — conversation kept for copying"
}

/// The empty-state hint, by priority: a closed analysis window, then the
/// connection, then sign-in, then a missing spectrum.
pub open spec fn empty_state_text(open: bool, connected: bool, signed_in: bool, spectrum: bool) -> Seq<char> {
    if !open {
        analysis_closed_text()
    } else if !connected {
        "Retry connection"@
    } else if !signed_in {
        "Sign in with Device login"@
    } else if !spectrum {
        "Open a spectrum in the analysis window"@
    } else {
        "Ask about the current spectrum or review its processing."@
    }
}

pub fn empty_state_message(open: bool, connected: bool, signed_in: bool, spectrum: bool) -> (r: &'static str)
    ensures
        r@ == empty_state_text(open, connected, signed_in, spectrum),
{
    if !open {
        analysis_closed()
    } else if !connected {
        "Retry connection"
    } else if !signed_in {
        "Sign in with Device login"
    } else if !spectrum {
        "Open a spectrum in the analysis window"
    } else {
        "Ask about the current spectrum or review its processing."
    }
}

/// What Escape does.
#[derive(Clone, Copy, Debug, PartialEq, Eq, Structural)]
pub enum EscapeTarget {
    CloseMenu,
    Stop,
    FocusComposer,
}

/// Escape closes an open menu first, then stops a running turn, and
/// otherwise focuses the composer.
pub fn escape_target(menu_open: bool, busy: bool) -> (r: EscapeTarget)
    ensures
        r == (if menu_open {
            EscapeTarget::CloseMenu
        } else if busy {
            EscapeTarget::Stop
        } else {
            EscapeTarget::FocusComposer
        }),
{
    if menu_open {
        EscapeTarget::CloseMenu
    } else if busy {
        EscapeTarget::Stop
    } else {
        EscapeTarget::FocusComposer
    }
}

/// The full account label when expanded, else only its first part.
pub fn account_disclosure(label: &str, expanded: bool) -> (r: &str)
    ensures
        r@ == (if expanded {
            label@
        } else {
            split_on(label@, account_separator())[0]
        }),
{
    if expanded {
        label
    } else {
        proof {
            reveal_strlit(" · ");
        }
        first_piece(label, " · ")
    }
}


/// The composer's menus.
#[derive(Clone, Copy, Debug, PartialEq, Eq, Structural)]
pub enum ComposerMenu {
    Model,
    Reasoning,
    Access,
}

impl ComposerMenu {
    /// Position of the menu's trigger in the composer.
    pub fn index(self) -> (r: usize)
        ensures
            r == match self {
                ComposerMenu::Model => 0usize,
                ComposerMenu::Reasoning => 1usize,
                ComposerMenu::Access => 2usize,
            },
    {
        match self {
            ComposerMenu::Model => 0,
            ComposerMenu::Reasoning => 1,
            ComposerMenu::Access => 2,
        }
    }

    pub open spec fn id_text(self) -> Seq<char> {
        match self {
            ComposerMenu::Model => "assistant-model"@,
            ComposerMenu::Reasoning => "assistant-reasoning"@,
            ComposerMenu::Access => "assistant-access"@,
        }
    }

    /// Element identifier of the menu's trigger.
    pub fn id(self) -> (r: &'static str)
        ensures
            r@ == self.id_text(),
    {
        match self {
            ComposerMenu::Model => "assistant-model",
            ComposerMenu::Reasoning => "assistant-reasoning",
            ComposerMenu::Access => "assistant-access",
        }
    }

    pub open spec fn title_text(self) -> Seq<char> {
        match self {
            ComposerMenu::Model => "Model"@,
            ComposerMenu::Reasoning => "Reasoning"@,
            ComposerMenu::Access => "Access"@,
        }
    }

    /// Accessible title of the menu.
    pub fn title(self) -> (r: &'static str)
        ensures
            r@ == self.title_text(),
    {
        match self {
            ComposerMenu::Model => "Model",
            ComposerMenu::Reasoning => "Reasoning",
            ComposerMenu::Access => "Access",
        }
    }
}

/// The highlighted row of an open menu of `count` rows after Up (`up`) or
/// Down: one row up, stopping at the first, or one row down, stopping at the last.
pub open spec fn highlight_after(highlight: usize, count: usize, up: bool) -> usize {
    if up {
        if highlight == 0 {
            0
        } else {
            (highlight - 1) as usize
        }
    } else if count == 0 {
        0
    } else if highlight + 1 < count {
        (highlight + 1) as usize
    } else {
        (count - 1) as usize
    }
}

/// The highlighted row after Up (`up`) or Down (see [`highlight_after`]).
pub fn menu_highlight_after_key(highlight: usize, count: usize, up: bool) -> (r: usize)
    ensures
        r == highlight_after(highlight, count, up),
{
    if up {
        highlight.saturating_sub(1)
    } else {
        let last = count.saturating_sub(1);
        if highlight < last {
            highlight + 1
        } else {
            last
        }
    }
}

/// What a key does to a menu.
#[derive(Clone, Copy, Debug, PartialEq, Eq, Structural)]
pub enum MenuKeyAction {
    /// Not the menu's key: it goes on to other handlers.
    PassThrough,
    /// Taken, but nothing happens (preferences are unavailable).
    Nothing,
    Close,
    /// Choose the highlighted row.
    Choose(usize),
    /// Open the menu, highlighting its selected row.
    Open,
    /// Open the menu first (`open_first`, which highlights its selected row),
    /// then move the highlight to `row`.
    Move { open_first: bool, row: usize },
}

/// The model picker's keys: Enter, Space, Up, Down and Escape, nothing else.
pub open spec fn model_picker_action(
    key: Seq<char>,
    open: bool,
    preferences: bool,
    highlight: usize,
    selected: usize,
    rows: usize,
) -> MenuKeyAction {
    if !(key == "enter"@ || key == "space"@ || key == "up"@ || key == "down"@ || key == "escape"@) {
        MenuKeyAction::PassThrough
    } else if !preferences {
        MenuKeyAction::Nothing
    } else if key == "escape"@ {
        MenuKeyAction::Close
    } else if key == "enter"@ && open {
        MenuKeyAction::Choose(highlight)
    } else if key == "enter"@ || key == "space"@ {
        if open {
            MenuKeyAction::Nothing
        } else {
            MenuKeyAction::Open
        }
    } else {
        MenuKeyAction::Move {
            open_first: !open,
            row: highlight_after(if open { highlight } else { selected }, rows, key == "up"@),
        }
    }
}

/// What a key does to the model picker (see [`model_picker_action`]).
pub fn model_picker_key(
    key: &str,
    open: bool,
    preferences: bool,
    highlight: usize,
    selected: usize,
    rows: usize,
) -> (r: MenuKeyAction)
    ensures
        r == model_picker_action(key@, open, preferences, highlight, selected, rows),
{
    let enter = str_eq(key, "enter");
    let space = str_eq(key, "space");
    let up = str_eq(key, "up");
    let down = str_eq(key, "down");
    let escape = str_eq(key, "escape");
    if !(enter || space || up || down || escape) {
        MenuKeyAction::PassThrough
    } else if !preferences {
        MenuKeyAction::Nothing
    } else if escape {
        MenuKeyAction::Close
    } else if enter && open {
        MenuKeyAction::Choose(highlight)
    } else if enter || space {
        if open {
            MenuKeyAction::Nothing
        } else {
            MenuKeyAction::Open
        }
    } else {
        let from = if open {
            highlight
        } else {
            selected
        };
        MenuKeyAction::Move { open_first: !open, row: menu_highlight_after_key(from, rows, up) }
    }
}

/// A composer menu's keys: while any menu is open every key is taken, and
/// while none is, every key but Escape; Enter and Space choose in this menu
/// when it is open, else open it; Up and Down open it if needed and move.
pub open spec fn composer_menu_action(
    key: Seq<char>,
    any_open: bool,
    this_open: bool,
    preferences: bool,
    highlight: usize,
    selected: usize,
    rows: usize,
) -> MenuKeyAction {
    if !(any_open || key != "escape"@) {
        MenuKeyAction::PassThrough
    } else if !preferences {
        MenuKeyAction::Nothing
    } else if key == "escape"@ {
        MenuKeyAction::Close
    } else if key == "enter"@ || key == "space"@ {
        if this_open {
            MenuKeyAction::Choose(highlight)
        } else {
            MenuKeyAction::Open
        }
    } else if key == "up"@ || key == "down"@ {
        MenuKeyAction::Move {
            open_first: !this_open,
            row: highlight_after(if this_open { highlight } else { selected }, rows, key == "up"@),
        }
    } else {
        MenuKeyAction::Nothing
    }
}

/// What a key does to a composer menu (see [`composer_menu_action`]).
pub fn composer_menu_key(
    key: &str,
    any_open: bool,
    this_open: bool,
    preferences: bool,
    highlight: usize,
    selected: usize,
    rows: usize,
) -> (r: MenuKeyAction)
    ensures
        r == composer_menu_action(key@, any_open, this_open, preferences, highlight, selected, rows),
{
    if !model_picker_handles_key(any_open, key) {
        MenuKeyAction::PassThrough
    } else if !preferences {
        MenuKeyAction::Nothing
    } else if str_eq(key, "escape") {
        MenuKeyAction::Close
    } else if str_eq(key, "enter") || str_eq(key, "space") {
        if this_open {
            MenuKeyAction::Choose(highlight)
        } else {
            MenuKeyAction::Open
        }
    } else if str_eq(key, "up") || str_eq(key, "down") {
        let from = if this_open {
            highlight
        } else {
            selected
        };
        MenuKeyAction::Move {
            open_first: !this_open,
            row: menu_highlight_after_key(from, rows, str_eq(key, "up")),
        }
    } else {
        MenuKeyAction::Nothing
    }
}

/// Toggling the panels off and on again restores what was shown: hiding
/// visible panels remembers them, and the next toggle (with nothing shown)
/// brings exactly them back.
pub proof fn law_toggle_restores_panels(memory: PanelMemory, shown: PanelMemory)
    requires
        !shown.is_none(),
    ensures
        memory.toggled(shown) == PanelMemory::none(),
        memory.remembered(shown).toggled(PanelMemory::none()) == shown,
        memory.remembered(shown).remembered(PanelMemory::none()) == shown,
{
}

/// With nothing remembered and nothing shown, toggling shows both panels.
pub proof fn law_toggle_from_nothing_shows_both(memory: PanelMemory)
    requires
        memory.is_none(),
    ensures
        memory.toggled(PanelMemory::none()) == PanelMemory::both(),
{
}

/// Closing a popped-out Assistant docks it; closing it again closes it.
pub proof fn law_close_docks_then_closes(host: AssistantHost)
    requires
        host == AssistantHost::PoppedOut,
    ensures
        host.next(HostAction::Close) == AssistantHost::Docked,
        host.next(HostAction::Close).next(HostAction::Close) == AssistantHost::Closed,
{
}

/// Docking and popping out are idempotent, and a toggle from Docked closes.
pub proof fn law_host_actions(host: AssistantHost, prefer_docked: bool)
    ensures
        host.next(HostAction::Dock).next(HostAction::Dock) == AssistantHost::Docked,
        host.next(HostAction::PopOut).next(HostAction::PopOut) == AssistantHost::PoppedOut,
        AssistantHost::Docked.next(HostAction::Toggle { prefer_docked }) == AssistantHost::Closed,
        host.next(HostAction::Toggle { prefer_docked }) != host,
{
}

/// The controls never contradict each other: starters follow Send, Send and
/// Stop are never both enabled, copying is always available, and Close is
/// offered exactly when the composer is not.
pub proof fn law_controls_consistent(analysis_open: bool, connected: bool, signed_in: bool, busy: bool)
    ensures
        ({
            let c = ControlState::of(analysis_open, connected, signed_in, busy);
            &&& c.starters == c.send
            &&& !(c.send && c.stop)
            &&& c.copy
            &&& c.close == !c.composer
            &&& (c.send || c.stop) ==> c.navigation
            &&& c.preferences ==> c.composer
        }),
{
}

/// At most three starters are offered, each at most once.
pub proof fn law_starters_distinct(spectrum: bool, paths: bool, fit: bool)
    ensures
        starter_choice(spectrum, paths, fit).len() <= 3,
        forall|i: int, j: int|
            0 <= i < j < starter_choice(spectrum, paths, fit).len() ==> starter_choice(
                spectrum,
                paths,
                fit,
            )[i] != starter_choice(spectrum, paths, fit)[j],
        forall|i: int|
            0 <= i < starter_choice(spectrum, paths, fit).len() ==> 0 <= #[trigger] starter_choice(
                spectrum,
                paths,
                fit,
            )[i] < STARTER_COUNT,
{
}


/// The starter prompts are distinct, editable (non-empty) prompts with
/// distinct labels.
pub proof fn law_starter_prompts_distinct()
    ensures
        forall|i: int| 0 <= i < STARTER_COUNT ==> #[trigger] starter_label(i).len() > 0 && starter_prompt(i).len() > 0,
        forall|i: int, j: int|
            0 <= i < j < STARTER_COUNT ==> #[trigger] starter_label(i) != #[trigger] starter_label(j)
                && starter_prompt(i) != starter_prompt(j),
{
    reveal_strlit("Check processing");
    reveal_strlit("Review fit setup");
    reveal_strlit("Summarize latest fit");
    reveal_strlit("Explain this spectrum");
    reveal_strlit("Suggest a fit model");
    reveal_strlit("Check the current spectrum's processing. Review normalization, background subtraction, and transform settings; explain any concerns before proposing changes.");
    reveal_strlit("Review the current spectrum's fit setup, including paths, parameter constraints, and fit ranges. Explain any concerns before proposing changes.");
    reveal_strlit("Summarize the latest recorded fit for the current spectrum, including fit quality, important estimates, uncertainties, and limitations.");
    reveal_strlit("Explain the current spectrum and the active processing stage. Describe what the data can tell us and any limitations.");
    reveal_strlit("Suggest a fit model using the available paths for the current spectrum. Explain path choices and parameter constraints before proposing changes.");
    assert forall|i: int, j: int| 0 <= i < j < STARTER_COUNT implies #[trigger] starter_label(i) != #[trigger] starter_label(j)
        && starter_prompt(i) != starter_prompt(j) by {
        assert(starter_label(i)[0] != starter_label(j)[0] || starter_label(i).len() != starter_label(j).len());
        assert(starter_prompt(i)[0] != starter_prompt(j)[0] || starter_prompt(i).len() != starter_prompt(j).len());
    }
}

} // verus!
