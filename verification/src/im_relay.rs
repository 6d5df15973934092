//! Input method events.
use vstd::prelude::*;

verus! {

/// What the input method relay reports of the text field that has the focus.
#[derive(Clone, Copy, Debug, PartialEq, Eq, Structural)]
pub enum ImEvent {
    Activated,
    Deactivated,
}

} // verus!
