//! Decisions of the per-frame loop that runs the window.
use vstd::prelude::*;

verus! {

/// What the window reported since the last frame, as far as the loop cares.
#[derive(Debug, Clone, Copy, PartialEq, Eq, Structural)]
pub enum Signal {
    /// The window was asked to close.
    Closed,
    /// The escape key was pressed.
    Escape,
    /// Anything else.
    Other,
}

/// Whether a signal asks the loop to stop.
pub open spec fn stops(s: Signal) -> bool {
    s == Signal::Closed || s == Signal::Escape
}

/// Whether another frame is drawn after the given signals: it is unless one
/// of them is a close request or an escape key press.
pub fn keeps_running(signals: &Vec<Signal>) -> (r: bool)
    ensures
        r == !(exists|i: int| 0 <= i < signals@.len() && stops(#[trigger] signals@[i])),
{
    let mut i: usize = 0;
    while i < signals.len()
        invariant
            0 <= i <= signals@.len(),
            forall|j: int| 0 <= j < i ==> !stops(#[trigger] signals@[j]),
        decreases signals@.len() - i,
    {
        match signals[i] {
            Signal::Closed | Signal::Escape => {
                return false;
            },
            Signal::Other => {},
        }
        i = i + 1;
    }
    true
}

} // verus!
