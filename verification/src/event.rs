//! Event types for the compositor-to-Emacs interface.
//!
//! Scales are counted in 120ths, the precision of the fractional-scale protocol.
use vstd::prelude::*;

verus! {

/// Output mode information
#[derive(Clone, Copy, Debug, PartialEq, Eq, Structural)]
pub struct OutputMode {
    pub width: i32,
    pub height: i32,
    /// Refresh rate in millihertz.
    pub refresh: i32,
    pub preferred: bool,
}

/// Output information sent to Emacs
#[derive(Debug)]
pub struct OutputInfo {
    pub name: String,
    pub make: String,
    pub model: String,
    pub width_mm: i32,
    pub height_mm: i32,
    pub x: i32,
    pub y: i32,
    pub scale_120: u32,
    pub transform: i32,
    pub modes: Vec<OutputMode>,
}

/// Copies a list of modes.
pub fn copy_modes(modes: &Vec<OutputMode>) -> (r: Vec<OutputMode>)
    ensures
        r@ == modes@,
{
    let mut out: Vec<OutputMode> = Vec::new();
    let mut i: usize = 0;
    while i < modes.len()
        invariant
            i <= modes@.len(),
            out@ == modes@.subrange(0, i as int),
        decreases modes@.len() - i,
    {
        out.push(modes[i]);
        i = i + 1;
        assert(out@ =~= modes@.subrange(0, i as int));
    }
    assert(modes@.subrange(0, i as int) =~= modes@);
    out
}

impl OutputInfo {
    /// The two hold the same information.
    pub open spec fn same(&self, o: &OutputInfo) -> bool {
        &&& self.name == o.name
        &&& self.make == o.make
        &&& self.model == o.model
        &&& self.width_mm == o.width_mm
        &&& self.height_mm == o.height_mm
        &&& self.x == o.x
        &&& self.y == o.y
        &&& self.scale_120 == o.scale_120
        &&& self.transform == o.transform
        &&& self.modes@ == o.modes@
    }

    /// Copies the information.
    pub fn duplicate(&self) -> (r: OutputInfo)
        ensures
            r.same(self),
    {
        OutputInfo {
            name: self.name.clone(),
            make: self.make.clone(),
            model: self.model.clone(),
            width_mm: self.width_mm,
            height_mm: self.height_mm,
            x: self.x,
            y: self.y,
            scale_120: self.scale_120,
            transform: self.transform,
            modes: copy_modes(&self.modes),
        }
    }
}

/// Working area information (area available after layer-shell exclusive zones)
#[derive(Debug)]
pub struct WorkingAreaInfo {
    pub output: String,
    pub x: i32,
    pub y: i32,
    pub width: i32,
    pub height: i32,
}

/// Events sent from compositor to Emacs.
#[allow(inconsistent_fields)]
#[derive(Debug)]
pub enum Event {
    /// Compositor is ready
    Ready,
    /// New surface created
    New { id: u64, app: String, output: Option<String>, pid: i32 },
    /// Surface closed
    Close { id: u64 },
    /// Surface minimize requested
    Minimize { id: u64 },
    /// Surface title changed
    Title { id: u64, app: String, title: String },
    /// Focus changed to surface
    Focus { id: u64 },
    /// Output connected
    OutputDetected(OutputInfo),
    /// Output disconnected
    OutputDisconnected { name: String },
    /// All outputs have been sent
    OutputsComplete,
    /// Keyboard layouts available
    Layouts { layouts: Vec<String>, current: usize },
    /// Keyboard layout switched
    LayoutSwitched { layout: String, index: usize },
    /// Text input activated (for input method)
    TextInputActivated,
    /// Text input deactivated
    TextInputDeactivated,
    /// Key event (for intercepted keys)
    Key { keysym: u32, utf8: Option<String> },
    /// Verbose compositor state dump (for debugging)
    DebugState { json: String },
    /// Working area changed (due to layer-shell exclusive zones)
    WorkingArea { output: String, x: i32, y: i32, width: i32, height: i32 },
    /// Output configuration applied (after ConfigureOutput command)
    OutputConfigChanged {
        name: String,
        width: i32,
        height: i32,
        refresh: i32,
        x: i32,
        y: i32,
        scale_120: u32,
        transform: i32,
    },
    /// Clipboard selection changed (Wayland client copied text)
    SelectionChanged { text: String },
    /// Workspace activation requested (e.g. a click on a panel)
    ActivateWorkspace { output: String, tab_index: usize },
    /// Surface requests fullscreen mode
    FullscreenRequest { id: u64, output: Option<String> },
    /// Surface requests to leave fullscreen mode
    UnfullscreenRequest { id: u64 },
    /// Surface requests maximized mode
    MaximizeRequest { id: u64 },
    /// Surface requests to leave maximized mode
    UnmaximizeRequest { id: u64 },
    /// Idle state changed (native idle timeout)
    IdleStateChanged { idle: bool },
    /// Environment variables for Emacs to apply
    Environment { vars: Vec<(String, String)> },
}

} // verus!
