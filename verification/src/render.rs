use vstd::prelude::*;

verus! {

/// Lifecycle of the render loop. One tick runs collect, layout, paint, then
/// polls for cancellation: `Running` keeps ticking, `Draining` means a
/// cancellation was observed and the loop stops once the current tick is
/// finished, `Stopped` is terminal.
#[derive(Clone, Copy, PartialEq, Eq, Structural, Debug)]
pub enum LoopState {
    Running,
    Draining,
    Stopped,
}

pub open spec fn spec_next_state(s: LoopState, cancel_observed: bool) -> LoopState {
    match s {
        LoopState::Running => if cancel_observed {
            LoopState::Draining
        } else {
            LoopState::Running
        },
        LoopState::Draining => LoopState::Stopped,
        LoopState::Stopped => LoopState::Stopped,
    }
}

/// Advances the loop lifecycle by one observation: a running loop that sees
/// a cancellation starts draining, a draining loop stops once its tick is
/// done, and a stopped loop stays stopped.
pub fn next_state(s: LoopState, cancel_observed: bool) -> (r: LoopState)
    ensures
        r == spec_next_state(s, cancel_observed),
{
    match s {
        LoopState::Running => if cancel_observed {
            LoopState::Draining
        } else {
            LoopState::Running
        },
        LoopState::Draining => LoopState::Stopped,
        LoopState::Stopped => LoopState::Stopped,
    }
}

/// Whether another tick's work is owed in this state.
pub fn should_tick(s: LoopState) -> (r: bool)
    ensures
        r == !(s is Stopped),
{
    match s {
        LoopState::Running => true,
        LoopState::Draining => true,
        LoopState::Stopped => false,
    }
}

pub open spec fn spec_rank(s: LoopState) -> int {
    match s {
        LoopState::Running => 0,
        LoopState::Draining => 1,
        LoopState::Stopped => 2,
    }
}

/// Shutdown is monotone: the lifecycle never moves backward, `Stopped` is
/// terminal, and from any state two observations suffice to stop once a
/// cancellation has been seen.
pub proof fn lemma_lifecycle_monotone(s: LoopState, cancel_observed: bool)
    ensures
        spec_rank(spec_next_state(s, cancel_observed)) >= spec_rank(s),
        spec_next_state(LoopState::Stopped, cancel_observed) == LoopState::Stopped,
        spec_next_state(spec_next_state(s, true), true) == LoopState::Stopped,
{
}

/// A process-wide cancellation request, funneled from all sources into one
/// monotone flag: it can be raised, never cleared.
pub struct CancelToken {
    requested: bool,
}

impl CancelToken {
    pub closed spec fn spec_requested(&self) -> bool {
        self.requested
    }

    /// A fresh token carries no request.
    pub fn new() -> (r: CancelToken)
        ensures
            !r.spec_requested(),
    {
        CancelToken { requested: false }
    }

    /// Raises the flag; a raised flag stays raised.
    pub fn request(&mut self)
        ensures
            final(self).spec_requested(),
    {
        self.requested = true;
    }

    /// Reads the flag without changing it.
    pub fn is_requested(&self) -> (r: bool)
        ensures
            r == self.spec_requested(),
    {
        self.requested
    }
}

/// Whether a key press asks the dashboard to quit: the quit key itself, or
/// the interrupt chord.
pub fn is_quit_key(ch: char, ctrl: bool) -> (r: bool)
    ensures
        r == (ch == 'q' || (ch == 'c' && ctrl)),
{
    ch == 'q' || (ch == 'c' && ctrl)
}

/// Folds the tick's two edge-triggered cancellation sources — an OS
/// interrupt and a quit key press — into the single observation the
/// lifecycle consumes.
pub fn cancel_observed(interrupted: bool, quit_pressed: bool) -> (r: bool)
    ensures
        r == (interrupted || quit_pressed),
{
    interrupted || quit_pressed
}

} // verus!
