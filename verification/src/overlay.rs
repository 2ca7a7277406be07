//! Lifecycle of the animated dialog overlay.
use vstd::prelude::*;

verus! {

/// Lifecycle phase of the overlay.
#[derive(PartialEq, Eq, Structural, Clone, Copy, Debug)]
pub enum OverlayPhase {
    Hidden,
    Entering,
    Visible,
    Exiting,
}

/// The phase that follows `current` when the owner asks for `open`.
pub open spec fn spec_next_phase(current: OverlayPhase, open: bool) -> OverlayPhase {
    match (current, open) {
        (OverlayPhase::Hidden, true) => OverlayPhase::Entering,
        (OverlayPhase::Exiting, true) => OverlayPhase::Entering,
        (OverlayPhase::Entering, false) => OverlayPhase::Exiting,
        (OverlayPhase::Visible, false) => OverlayPhase::Exiting,
        _ => current,
    }
}

/// Pure state transition: given the current phase and the desired `open`
/// state, return the next phase.
pub fn next_phase(current: OverlayPhase, open: bool) -> (next: OverlayPhase)
    ensures
        next == spec_next_phase(current, open),
{
    match (current, open) {
        (OverlayPhase::Hidden, true) => OverlayPhase::Entering,
        (OverlayPhase::Exiting, true) => OverlayPhase::Entering,
        (OverlayPhase::Entering, false) => OverlayPhase::Exiting,
        (OverlayPhase::Visible, false) => OverlayPhase::Exiting,
        _ => current,
    }
}


/// Proof that asking twice for the same `open` value changes nothing the second time.
pub proof fn lemma_next_phase_idempotent(current: OverlayPhase, open: bool)
    ensures
        spec_next_phase(spec_next_phase(current, open), open) == spec_next_phase(current, open),
{
}

/// Proof that an open request always leads towards showing the overlay and a close
/// request always leads towards hiding it.
pub proof fn lemma_next_phase_direction(current: OverlayPhase, open: bool)
    ensures
        open ==> (spec_next_phase(current, open) == OverlayPhase::Entering
            || spec_next_phase(current, open) == OverlayPhase::Visible),
        !open ==> (spec_next_phase(current, open) == OverlayPhase::Hidden
            || spec_next_phase(current, open) == OverlayPhase::Exiting),
{
}

/// A timer that the owner of the overlay must start after a transition.
#[derive(PartialEq, Eq, Structural, Clone, Copy, Debug)]
pub enum OverlayTimer {
    /// No timer.
    Idle,
    /// Enter animation timer, in milliseconds.
    Enter(u32),
    /// Exit animation timer, in milliseconds.
    Exit(u32),
}

/// Duration of the enter animation in milliseconds.
pub const ENTER_MS: u32 = 200;
/// Duration of the exit animation in milliseconds.
pub const EXIT_MS: u32 = 150;

/// The overlay's phase together with the last `open` value it acted on.
#[derive(Clone, Copy, Debug)]
pub struct OverlayMachine {
    pub phase: OverlayPhase,
    pub prev_open: bool,
}

impl OverlayMachine {
    /// A fresh overlay: hidden, with `prev_open` initialised to `!open` so that an
    /// overlay mounted already open still plays its enter animation.
    pub fn new(open: bool) -> (m: Self)
        ensures
            m.phase == OverlayPhase::Hidden,
            m.prev_open == !open,
    {
        OverlayMachine { phase: OverlayPhase::Hidden, prev_open: !open }
    }

    /// React to the `open` prop. Nothing changes unless `open` differs from the last
    /// value acted on; otherwise the phase follows `next_phase` and the timer that the
    /// new phase needs is returned.
    pub fn on_open_prop(&mut self, open: bool) -> (timer: OverlayTimer)
        ensures
            (*final(self), timer) == spec_on_open_prop(*old(self), open),
    {
        if open == self.prev_open {
            return OverlayTimer::Idle;
        }
        self.prev_open = open;
        let next = next_phase(self.phase, open);
        if next == self.phase {
            return OverlayTimer::Idle;
        }
        self.phase = next;
        match next {
            OverlayPhase::Entering => OverlayTimer::Enter(ENTER_MS),
            OverlayPhase::Exiting => OverlayTimer::Exit(EXIT_MS),
            _ => OverlayTimer::Idle,
        }
    }

    /// The enter timer fired: finish entering, unless the overlay left that phase.
    pub fn on_enter_timeout(&mut self)
        ensures
            final(self).prev_open == old(self).prev_open,
            final(self).phase == (if old(self).phase == OverlayPhase::Entering {
                OverlayPhase::Visible
            } else {
                old(self).phase
            }),
    {
        if self.phase == OverlayPhase::Entering {
            self.phase = OverlayPhase::Visible;
        }
    }

    /// The exit timer fired: finish hiding, unless a re-open restarted the enter animation.
    pub fn on_exit_timeout(&mut self)
        ensures
            final(self).prev_open == old(self).prev_open,
            final(self).phase == (if old(self).phase == OverlayPhase::Exiting {
                OverlayPhase::Hidden
            } else {
                old(self).phase
            }),
    {
        if self.phase == OverlayPhase::Exiting {
            self.phase = OverlayPhase::Hidden;
        }
    }

    /// A click on the backdrop starts the exit animation when the overlay is fully
    /// visible; the result says whether it did (and so whether the close handler runs).
    pub fn on_backdrop_click(&mut self) -> (closing: bool)
        ensures
            closing == (old(self).phase == OverlayPhase::Visible),
            final(self).prev_open == old(self).prev_open,
            final(self).phase == (if closing { OverlayPhase::Exiting } else { old(self).phase }),
    {
        if self.phase == OverlayPhase::Visible {
            self.phase = OverlayPhase::Exiting;
            true
        } else {
            false
        }
    }
}

/// The machine and timer after the `open` prop is observed.
pub open spec fn spec_on_open_prop(m: OverlayMachine, open: bool) -> (OverlayMachine, OverlayTimer) {
    if m.prev_open == open {
        (m, OverlayTimer::Idle)
    } else {
        let next = spec_next_phase(m.phase, open);
        let timer = if next == m.phase {
            OverlayTimer::Idle
        } else if next == OverlayPhase::Entering {
            OverlayTimer::Enter(ENTER_MS)
        } else if next == OverlayPhase::Exiting {
            OverlayTimer::Exit(EXIT_MS)
        } else {
            OverlayTimer::Idle
        };
        (OverlayMachine { phase: next, prev_open: open }, timer)
    }
}

/// Proof that a close started from the backdrop is not replaced by a re-enter when the
/// effect re-runs without a change of the `open` prop.
pub proof fn lemma_backdrop_close_survives_rerun(m: OverlayMachine)
    requires
        m.phase == OverlayPhase::Exiting,
    ensures
        spec_on_open_prop(m, m.prev_open).0.phase == OverlayPhase::Exiting,
        spec_on_open_prop(m, m.prev_open).1 == OverlayTimer::Idle,
{
}

/// Proof that toggling `open` off and on again while exiting restarts the enter animation.
pub proof fn lemma_reopen_during_exit(m: OverlayMachine)
    requires
        m.phase == OverlayPhase::Exiting,
        m.prev_open == false,
    ensures
        spec_on_open_prop(m, true).0.phase == OverlayPhase::Entering,
        spec_on_open_prop(m, true).1 == OverlayTimer::Enter(ENTER_MS),
{
}

/// CSS classes of the backdrop in each phase.
pub fn backdrop_class(phase: OverlayPhase) -> (class: &'static str)
    ensures
        phase == OverlayPhase::Entering ==> class@
            == "fixed inset-0 bg-black/50 z-40 flex items-center justify-center p-4 animate-overlay-in"@,
        phase == OverlayPhase::Visible ==> class@
            == "fixed inset-0 bg-black/50 z-40 flex items-center justify-center p-4"@,
        phase == OverlayPhase::Exiting ==> class@
            == "fixed inset-0 bg-black/50 z-40 flex items-center justify-center p-4 animate-overlay-out"@,
        phase == OverlayPhase::Hidden ==> class@ == ""@,
{
    match phase {
        OverlayPhase::Entering => "fixed inset-0 bg-black/50 z-40 flex items-center justify-center p-4 animate-overlay-in",
        OverlayPhase::Visible => "fixed inset-0 bg-black/50 z-40 flex items-center justify-center p-4",
        OverlayPhase::Exiting => "fixed inset-0 bg-black/50 z-40 flex items-center justify-center p-4 animate-overlay-out",
        OverlayPhase::Hidden => "",
    }
}

/// CSS classes of the dialog wrapper in each phase.
pub fn wrapper_class(phase: OverlayPhase) -> (class: &'static str)
    ensures
        phase == OverlayPhase::Entering ==> class@ == "animate-dialog-in"@,
        phase == OverlayPhase::Exiting ==> class@ == "animate-dialog-out"@,
        (phase == OverlayPhase::Hidden || phase == OverlayPhase::Visible) ==> class@ == ""@,
{
    match phase {
        OverlayPhase::Entering => "animate-dialog-in",
        OverlayPhase::Exiting => "animate-dialog-out",
        _ => "",
    }
}

} // verus!
