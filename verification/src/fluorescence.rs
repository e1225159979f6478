//! The thick-sample fluorescence correction dialog's state: a preview is
//! tied to the generation it was started in, so closing the dialog or
//! editing an input discards any preview still on its way.
use vstd::prelude::*;

verus! {

/// The dialog's state. `T` is the target spectrum's identity, `F` an input
/// field, `R` a computed correction record and `P` its preview plot.
pub struct FluorescenceState<T, F, R, P> {
    pub open: bool,
    pub target: Option<T>,
    pub fields: Vec<F>,
    /// Advances whenever the preview is invalidated; a preview finished for
    /// an older generation is dropped.
    pub generation: u64,
    pub busy: bool,
    pub advanced: bool,
    pub notes: bool,
    pub assumed: bool,
    pub historical: bool,
    pub history_index: usize,
    pub factor: bool,
    pub record: Option<R>,
    pub plot: Option<P>,
    pub message: String,
}

impl<T, F, R, P> FluorescenceState<T, F, R, P> {
    /// A closed dialog with nothing computed.
    pub fn new() -> (r: Self)
        ensures
            !r.open && r.target is None && r.fields@.len() == 0 && r.generation == 0 && !r.busy
                && !r.advanced && !r.notes && !r.assumed && !r.historical && r.history_index == 0
                && !r.factor && r.record is None && r.plot is None && r.message@.len() == 0,
    {
        FluorescenceState {
            open: false,
            target: None,
            fields: Vec::new(),
            generation: 0,
            busy: false,
            advanced: false,
            notes: false,
            assumed: false,
            historical: false,
            history_index: 0,
            factor: false,
            record: None,
            plot: None,
            message: String::new(),
        }
    }

    /// The state with its preview discarded: no record, plot or factor view
    /// is kept, nothing runs, and the generation advances so that a late
    /// result is dropped.
    pub open spec fn invalidated(self) -> Self {
        FluorescenceState {
            generation: (self.generation + 1) as u64,
            busy: false,
            record: None,
            plot: None,
            factor: false,
            ..self
        }
    }

    /// The state after closing: closed, with its preview discarded.
    pub open spec fn closed(self) -> Self {
        FluorescenceState { open: false, ..self }.invalidated()
    }

    /// Whether a preview started in `generation` may still be shown.
    pub open spec fn shows(self, generation: u64) -> bool {
        self.open && self.generation == generation
    }

    /// Discard the preview (see [`FluorescenceState::invalidated`]).
    pub fn invalidate(&mut self)
        requires
            old(self).generation < u64::MAX,
        ensures
            *final(self) == old(self).invalidated(),
    {
        self.generation = self.generation + 1;
        self.busy = false;
        self.record = None;
        self.plot = None;
        self.factor = false;
    }

    /// Close the dialog and discard its preview.
    pub fn close(&mut self)
        requires
            old(self).generation < u64::MAX,
        ensures
            *final(self) == old(self).closed(),
    {
        self.open = false;
        self.invalidate();
    }

    /// Whether a preview started in `generation` may still be shown.
    pub fn preview_current(&self, generation: u64) -> (r: bool)
        ensures
            r == self.shows(generation),
    {
        self.open && self.generation == generation
    }
}

/// A preview started before the dialog closed or an input changed is never
/// shown: once closed no preview is current, and once invalidated the
/// generation a preview was started in is no longer the dialog's.
pub proof fn law_stale_previews_are_dropped<T, F, R, P>(s: FluorescenceState<T, F, R, P>, started: u64)
    requires
        s.generation < u64::MAX,
    ensures
        !s.closed().shows(started),
        !s.invalidated().shows(s.generation),
{
}

} // verus!
