//! What the compositor asks its surroundings to do, in order.
use crate::event::Event;
use crate::geometry::{Point, Size};
use crate::time::Duration;
use vstd::prelude::*;

verus! {

/// Which timer a number stands for.
#[derive(Debug, PartialEq, Eq)]
pub enum TimerKind {
    /// Stands in for a VBlank of the output.
    EstimatedVBlank { output: String },
    /// Ends a period without user activity.
    Idle,
}

/// An action outside the compositor's own state.
#[derive(Debug)]
pub enum Effect {
    /// Send an event to Emacs.
    Event(Event),
    /// Tell the surface that it is shown on the output.
    Enter { output: String, id: u64 },
    /// Tell the surface that it is no longer shown on the output.
    Leave { output: String, id: u64 },
    /// Tell the surface the output's scale and transform.
    SendScale { output: String, id: u64 },
    /// Let go of all casts without telling anybody: PipeWire is gone.
    DropCasts,
    /// Tell idle watchers that the user is there.
    NotifyActivity,
    /// Send the key of the event at hand once more, to the surface that has the keyboard now. It
    /// is seen in the first keyboard layout if `base_layout`; then the layout `restore` is set.
    ResendKey { base_layout: bool, restore: Option<usize> },
    /// Tell the layer surface the output's scale and transform.
    SendLayerScale { output: String, surface: u64 },
    /// Send the layer surface its configuration.
    ConfigureLayer { surface: u64 },
    /// Ask the layer surface to go away.
    CloseLayer { surface: u64 },
    /// Tell the layer surfaces on the output and the dragged icon its scale and transform.
    SendScaleToLayers { output: String },
    /// Send the window's pending state to its client.
    Configure { id: u64 },
    /// Ask the window to close.
    SendClose { id: u64 },
    /// Show the Emacs frame at a place in the global space.
    MapFrame { id: u64, at: Point },
    /// Take the window out of the global space.
    UnmapFrame { id: u64 },
    /// Start a timer under a number.
    StartTimer { token: u64, after: Duration, kind: TimerKind },
    /// Cancel the timer with this number.
    CancelTimer { token: u64 },
    /// End a screen cast session.
    StopCast { session: u64 },
    /// Offer a screen cast stream of the given size and rate instead of the present one.
    ResizeCast { session: u64, size: Size, refresh: u32 },
    /// Run the idle command.
    SpawnIdleCommand { command: String },
    /// End the idle command.
    KillIdleCommand,
    /// Confirm the session lock to the client that asked for it.
    ConfirmLock { lock: u64 },
    /// Refuse the session lock.
    RefuseLock { lock: u64 },
    /// Give the lock surface of the output its size.
    ConfigureLockSurface { output: String, surface: u64 },
    /// Forget gamma control of the output.
    DropGammaControl { output: String },
    /// Send frame callbacks to the surfaces of the output.
    FrameCallbacks { output: String },
    /// Give keyboard focus to a surface, or to none.
    SetKeyboardFocus { target: FocusTarget },
    /// Move the pointer, coordinates as bit patterns of floating point numbers.
    WarpPointer { x_bits: u64, y_bits: u64 },
    /// Look again at what is under the pointer.
    RefreshPointerFocus,
    /// Apply the stored configuration of the output.
    ApplyOutputConfig { output: String },
    /// Commit text to the active text field. Where there is none, it is kept for the next one if
    /// `keep`, else lost.
    CommitText { text: String, keep: bool },
    /// Switch the keyboard to a layout.
    SetKeyboardLayout { index: usize },
    /// Collect and send a state dump.
    DumpState,
    /// Create an activation token for the pool.
    CreateActivationToken,
    /// Offer text as clipboard selection.
    SetSelection { text: String },
    /// Write the stored settings to all input devices.
    ReapplyInputConfig,
    /// Set key repeat.
    SetKeyRepeat { rate: i32, delay: i32 },
    /// Compile keyboard layouts.
    SetXkbConfig { layouts: String, options: Option<String> },
    /// Blank the displays until the next frame.
    ClearDisplays,
}

/// What has keyboard focus.
#[derive(Clone, Copy, Debug, PartialEq, Eq, Structural)]
pub enum FocusTarget {
    /// Nothing.
    Nobody,
    /// A window, by its surface number.
    Window(u64),
    /// A layer surface.
    Layer(u64),
    /// A lock surface.
    Lock(u64),
}

} // verus!
