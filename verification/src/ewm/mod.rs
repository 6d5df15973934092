//! The compositor's state and the operations on it.
//!
//! An operation changes the state and appends to `effects` what has to happen outside: requests
//! to clients, timers, events for Emacs. The effects are carried out in order.
use crate::dbus::{CastTarget, OutputInfo as BusOutputInfo};
use crate::effect::{Effect, FocusTarget};
use crate::event::{Event, OutputInfo};
use crate::geometry::{Point, Rect, Size};
use crate::input::InputConfigEntry;
use crate::layout::{sizes_ok, Layouts, MappedOutput};
use crate::module::{make_room, opt_view, record_focus, records, FocusHistory, TabInfo};
use crate::outputs::{
    all_requested, any_due, clocks_ok, find_due, first_due, one_requested, request_all,
    request_one, OutputConfig,
};
use crate::redraw::OutputState;
use crate::tables::{IdMap, NameMap};
use crate::time::Duration;
use vstd::prelude::*;
use vstd::string::*;

pub mod casts;
pub mod commands;
pub mod focus;
pub mod idle;
pub mod input_events;
pub mod laws;
pub mod layers;
pub mod layouts;
pub mod lock;
pub mod outputs;
pub mod popups;
pub mod reports;
pub mod surfaces;
pub mod windows;

verus! {

/// What is known of a window.
#[derive(Clone, Copy, Debug, PartialEq, Eq, Structural)]
pub struct WindowState {
    /// Size that the client was or will be asked for.
    pub size: Option<Size>,
    pub maximized: bool,
    pub fullscreen: bool,
    /// Place in the global space, for windows that no layout places.
    pub at: Option<Point>,
}

/// Cached surface info for change detection
#[derive(Debug)]
pub struct SurfaceInfo {
    pub app_id: String,
    pub title: String,
}

/// Session lock state machine for secure screen locking. A lock is known by its number.
///
/// - Lock is confirmed only after all outputs render a locked frame
/// - Input is blocked during locking/locked states
#[derive(Clone, Copy, Debug, PartialEq, Eq, Structural)]
pub enum LockState {
    /// Session is not locked
    Unlocked,
    /// Lock requested, waiting for all outputs to render locked frame
    Locking(u64),
    /// Session is fully locked
    Locked(u64),
}

/// Action to perform when the native idle timeout fires.
#[derive(Debug)]
pub enum IdleAction {
    /// Turn off monitors
    DeactivateMonitors,
    /// Run a shell command (e.g., screensaver)
    RunCommand(String),
}

/// State for the native idle timeout feature.
///
/// Uses a last-activity timestamp pattern to avoid timer thrashing:
/// input events just update `last_activity`, and when the timer
/// fires it checks elapsed time, rescheduling if activity occurred.
#[derive(Debug)]
pub struct IdleTimeoutState {
    pub timeout: Option<Duration>,
    pub action: IdleAction,
    pub timer_token: Option<u64>,
    /// The idle command runs.
    pub child_running: bool,
    pub is_idle: bool,
    pub last_activity: Duration,
}

impl IdleTimeoutState {
    /// An idle session has a timeout and waits for no timer.
    pub open spec fn wf(&self) -> bool {
        self.is_idle ==> self.timeout is Some && self.timer_token is None
    }
}

/// The layer that a layer surface belongs to.
#[derive(Clone, Copy, Debug, PartialEq, Eq, Structural)]
pub enum Layer {
    Background,
    Bottom,
    Top,
    Overlay,
}

/// How a layer surface takes keyboard focus.
#[derive(Clone, Copy, Debug, PartialEq, Eq, Structural)]
pub enum KeyboardInteractivity {
    Never,
    Exclusive,
    OnDemand,
}

/// What is known of a layer surface.
#[derive(Debug)]
pub struct LayerInfo {
    pub surface: u64,
    pub output: String,
    pub layer: Layer,
    pub interactivity: KeyboardInteractivity,
}

/// Icon surface attached to the pointer during a drag operation.
#[derive(Clone, Copy, Debug, PartialEq, Eq, Structural)]
pub struct DragIcon {
    pub surface: u64,
    pub offset: Point,
}

/// The compositor's state.
pub struct Ewm {
    // Surface tracking
    pub next_surface_id: u64,
    pub windows: IdMap<WindowState>,
    pub surface_info: IdMap<SurfaceInfo>,
    /// Emacs frames and the outputs that they were made for.
    pub emacs_surfaces: IdMap<String>,
    pub emacs_pid: Option<u32>,
    // Layouts
    pub layouts: Layouts,
    /// Per-output workspace (tab) state from Emacs
    pub output_workspaces: NameMap<Vec<TabInfo>>,
    /// Output of each window's primary entry (for screencast)
    pub window_cast_output: IdMap<String>,
    // Outputs
    /// Outputs mapped into the global space, in mapping order.
    pub space: NameMap<MappedOutput>,
    pub output_size: Size,
    pub outputs: Vec<OutputInfo>,
    /// Desired output configuration. Looked up when outputs connect.
    pub output_config: NameMap<OutputConfig>,
    pub output_state: NameMap<OutputState>,
    /// Free area of each output as last told to Emacs.
    pub working_areas: NameMap<Rect>,
    pub dbus_outputs: Vec<BusOutputInfo>,
    /// Whether monitors are active (rendering allowed).
    pub monitors_active: bool,
    /// Output geometry or working areas changed since Emacs's snapshot.
    pub active_outputs_dirty: bool,
    /// Output management clients have to be told of changes.
    pub output_heads_changed: bool,
    /// Where the pointer is, in whole logical pixels (toward zero).
    pub pointer: Point,
    /// Last output the pointer was on, for per-output cursor redraw.
    pub pointer_output: Option<String>,
    /// What is shown at the pointer during a drag operation.
    pub drag_icon: Option<DragIcon>,
    // Focus
    pub focused_surface_id: u64,
    pub keyboard_focus: FocusTarget,
    pub keyboard_focus_dirty: bool,
    pub focus_history: FocusHistory,
    /// Layer surface with OnDemand keyboard interactivity that was clicked
    pub on_demand_layer: Option<u64>,
    /// Mapped layer surfaces in stacking order.
    pub layers: Vec<LayerInfo>,
    /// Layer surfaces without content.
    pub unmapped_layers: IdMap<()>,
    // Session lock
    pub lock_state: LockState,
    /// Surface that was focused before locking (restored on unlock)
    pub pre_lock_focus: Option<u64>,
    // Idle
    pub idle_timeout: IdleTimeoutState,
    // Input
    pub input_configs: Vec<InputConfigEntry>,
    /// Printable keys go to Emacs for its input method.
    pub text_input_intercept: bool,
    /// A text field is active.
    pub text_input_active: bool,
    /// Commits that arrived while no text field was active.
    pub pending_im_commits: Vec<String>,
    pub xkb_layout_names: Vec<String>,
    pub xkb_current_layout: usize,
    pub pending_screenshot: Option<String>,
    /// Screen cast sessions and what they show.
    pub screen_casts: IdMap<CastTarget>,
    /// Number of the next timer.
    pub next_timer: u64,
    /// What has to happen outside, oldest first.
    pub effects: Vec<Effect>,
}

impl Ewm {
    /// Every window has a number that was given out: never zero, never one still to come.
    pub open spec fn ids_ok(&self) -> bool {
        &&& self.next_surface_id >= 1
        &&& forall|id: u64| #[trigger]
            self.windows@.contains_key(id) ==> 1 <= id < self.next_surface_id
    }

    pub open spec fn wf(&self) -> bool {
        &&& self.ids_ok()
        &&& self.windows.wf()
        &&& self.surface_info.wf()
        &&& self.emacs_surfaces.wf()
        &&& self.layouts.wf()
        &&& self.output_workspaces.wf()
        &&& self.window_cast_output.wf()
        &&& self.space.wf()
        &&& sizes_ok(self.space@)
        &&& outputs::places_ok(self.space.entries@)
        &&& self.output_config.wf()
        &&& self.output_state.wf()
        &&& clocks_ok(self.output_state.entries@)
        &&& self.working_areas.wf()
        &&& self.focus_history.wf()
        &&& self.screen_casts.wf()
        &&& self.unmapped_layers.wf()
        &&& self.idle_timeout.wf()
    }

    /// The state of a compositor that has just started.
    pub fn new(now: Duration) -> (r: Self)
        ensures
            r.wf(),
            r.next_surface_id == 1,
            r.windows@ == Map::<u64, WindowState>::empty(),
            r.surface_info@ == Map::<u64, SurfaceInfo>::empty(),
            r.emacs_surfaces@ == Map::<u64, String>::empty(),
            r.emacs_pid is None,
            r.layouts.outputs.entries@.len() == 0,
            r.layouts.surface_outputs@ == Set::<(u64, Seq<char>)>::empty(),
            r.output_workspaces.entries@.len() == 0,
            r.window_cast_output@ == Map::<u64, String>::empty(),
            r.space.entries@.len() == 0,
            r.output_size == (Size { w: 0, h: 0 }),
            r.outputs@.len() == 0,
            r.output_config.entries@.len() == 0,
            r.output_state.entries@.len() == 0,
            r.working_areas.entries@.len() == 0,
            r.dbus_outputs@.len() == 0,
            r.monitors_active,
            r.active_outputs_dirty,
            !r.output_heads_changed,
            r.focused_surface_id == 0,
            r.keyboard_focus == FocusTarget::Nobody,
            !r.keyboard_focus_dirty,
            r.lock_state == LockState::Unlocked,
            r.pre_lock_focus is None,
            r.idle_timeout.timeout is None,
            r.idle_timeout.action is DeactivateMonitors,
            r.idle_timeout.timer_token is None,
            !r.idle_timeout.child_running,
            !r.idle_timeout.is_idle,
            r.idle_timeout.last_activity == now,
            !r.text_input_intercept,
            !r.text_input_active,
            r.pending_im_commits@.len() == 0,
            r.xkb_layout_names@.len() == 1,
            r.xkb_layout_names@[0]@ == "us"@,
            r.xkb_current_layout == 0,
            r.pending_screenshot is None,
            r.screen_casts@ == Map::<u64, CastTarget>::empty(),
            r.effects@.len() == 0,
            r.layers@.len() == 0,
            r.unmapped_layers@ == Map::<u64, ()>::empty(),
            r.on_demand_layer is None,
            r.pointer == (Point { x: 0, y: 0 }),
            r.pointer_output is None,
            r.drag_icon is None,
            r.input_configs@.len() == 0,
            r.focus_history.events@.len() == 0,
            r.focus_history.next_seq == 0,
            r.next_timer == 0,
    {
        let mut names: Vec<String> = Vec::new();
        names.push("us".to_owned());
        Ewm {
            next_surface_id: 1,
            windows: IdMap::new(),
            surface_info: IdMap::new(),
            emacs_surfaces: IdMap::new(),
            emacs_pid: None,
            layouts: Layouts::new(),
            output_workspaces: NameMap::new(),
            window_cast_output: IdMap::new(),
            space: NameMap::new(),
            output_size: Size { w: 0, h: 0 },
            outputs: Vec::new(),
            output_config: NameMap::new(),
            output_state: NameMap::new(),
            working_areas: NameMap::new(),
            dbus_outputs: Vec::new(),
            monitors_active: true,
            active_outputs_dirty: true,
            output_heads_changed: false,
            pointer: Point { x: 0, y: 0 },
            pointer_output: None,
            drag_icon: None,
            focused_surface_id: 0,
            keyboard_focus: FocusTarget::Nobody,
            keyboard_focus_dirty: false,
            focus_history: FocusHistory::focus_history(),
            on_demand_layer: None,
            layers: Vec::new(),
            unmapped_layers: IdMap::new(),
            lock_state: LockState::Unlocked,
            pre_lock_focus: None,
            idle_timeout: IdleTimeoutState {
                timeout: None,
                action: IdleAction::DeactivateMonitors,
                timer_token: None,
                child_running: false,
                is_idle: false,
                last_activity: now,
            },
            input_configs: Vec::new(),
            text_input_intercept: false,
            text_input_active: false,
            pending_im_commits: Vec::new(),
            xkb_layout_names: names,
            xkb_current_layout: 0,
            pending_screenshot: None,
            screen_casts: IdMap::new(),
            next_timer: 0,
            effects: Vec::new(),
        }
    }

    /// Hands out what has to happen outside, oldest first.
    pub fn take_effects(&mut self) -> (r: Vec<Effect>)
        ensures
            r@ == old(self).effects@,
            *final(self) == (Ewm { effects: final(self).effects, ..*old(self) }),
            final(self).effects@.len() == 0,
    {
        let mut out: Vec<Effect> = Vec::new();
        std::mem::swap(&mut out, &mut self.effects);
        out
    }

    pub(crate) fn emit(&mut self, e: Effect)
        ensures
            *final(self) == (Ewm { effects: final(self).effects, ..*old(self) }),
            final(self).effects@ == old(self).effects@.push(e),
    {
        self.effects.push(e);
    }

    /// Queue an event to be sent to Emacs
    pub fn queue_event(&mut self, event: Event)
        ensures
            *final(self) == (Ewm { effects: final(self).effects, ..*old(self) }),
            final(self).effects@ == old(self).effects@.push(Effect::Event(event)),
    {
        self.effects.push(Effect::Event(event));
    }

    /// Queue a redraw for all outputs
    pub fn queue_redraw_all(&mut self)
        requires
            old(self).wf(),
        ensures
            final(self).wf(),
            *final(self) == (Ewm { output_state: final(self).output_state, ..*old(self) }),
            final(self).output_state.entries@ == all_requested(old(self).output_state.entries@),
    {
        request_all(&mut self.output_state);
    }

    /// Queue a redraw for a specific output
    pub fn queue_redraw(&mut self, output: &str)
        requires
            old(self).wf(),
        ensures
            final(self).wf(),
            *final(self) == (Ewm { output_state: final(self).output_state, ..*old(self) }),
            final(self).output_state.entries@ == one_requested(
                old(self).output_state.entries@,
                output@,
            ),
    {
        request_one(&mut self.output_state, output);
    }

    /// Deactivate all monitors (e.g., lid closed with no external display).
    /// Prevents rendering while screens are off.
    pub fn deactivate_monitors(&mut self)
        ensures
            *final(self) == (Ewm { monitors_active: false, ..*old(self) }),
    {
        self.monitors_active = false;
    }

    /// Reactivate monitors (e.g., lid opened, or session resume).
    /// Queues redraws for all outputs.
    pub fn activate_monitors(&mut self)
        requires
            old(self).wf(),
        ensures
            final(self).wf(),
            *final(self) == (Ewm {
                monitors_active: true,
                output_state: final(self).output_state,
                ..*old(self)
            }),
            final(self).output_state.entries@ == if old(self).monitors_active {
                old(self).output_state.entries@
            } else {
                all_requested(old(self).output_state.entries@)
            },
            old(self).monitors_active ==> *final(self) == *old(self),
    {
        if !self.monitors_active {
            self.monitors_active = true;
            self.queue_redraw_all();
        }
    }

    /// Set focus to a surface with source tracking for debugging.
    /// Marks keyboard focus dirty for deferred sync.
    pub fn set_focus(&mut self, id: u64, notify_emacs: bool, source: &str, context: Option<&str>)
        requires
            old(self).wf(),
        ensures
            final(self).wf(),
            focus_set(
                *old(self),
                *final(self),
                id,
                notify_emacs,
                source@,
                opt_view(context),
            ),
    {
        record_focus(&mut self.focus_history, id, source, context);
        self.focused_surface_id = id;
        self.keyboard_focus_dirty = true;
        if notify_emacs {
            self.queue_event(Event::Focus { id });
        }
    }

    /// Check if focus is on an Emacs surface (for key interception decisions)
    pub fn is_focus_on_emacs(&self) -> (r: bool)
        requires
            self.wf(),
        ensures
            r == self.emacs_surfaces@.contains_key(self.focused_surface_id),
    {
        self.emacs_surfaces.contains(self.focused_surface_id)
    }

    /// Set the Emacs process PID for client identification
    pub fn set_emacs_pid(&mut self, pid: u32)
        ensures
            *final(self) == (Ewm { emacs_pid: Some(pid), ..*old(self) }),
    {
        self.emacs_pid = Some(pid);
    }

    /// Check if a client belongs to Emacs: its process is the one that was set.
    pub fn is_emacs_client(&self, client_pid: Option<i32>) -> (r: bool)
        ensures
            r == (self.emacs_pid is Some && client_pid == Some(self.emacs_pid->0 as i32)),
    {
        match (self.emacs_pid, client_pid) {
            (Some(pid), Some(c)) => c == #[verifier::truncate]
            (pid as i32),
            _ => false,
        }
    }

    /// Whether an output's redraw can start: it is queued and the monitors are on.
    pub open spec fn redraw_ready(&self, only: Option<Seq<char>>) -> bool {
        self.monitors_active && any_due(self.output_state.entries@, only)
    }

    /// Return the next output needing a redraw, preferring `prefer` if queued.
    pub fn next_queued_redraw(&self, prefer: Option<&str>) -> (r: Option<String>)
        ensures
            match r {
                Some(name) => self.monitors_active && exists|i: int|
                    #![trigger self.output_state.entries@[i]]
                    name == self.output_state.entries@[i].0 && (if prefer is Some && any_due(
                        self.output_state.entries@,
                        Some(prefer->0@),
                    ) {
                        first_due(self.output_state.entries@, Some(prefer->0@), i)
                    } else {
                        first_due(self.output_state.entries@, None, i)
                    }),
                None => !self.redraw_ready(None),
            },
    {
        if !self.monitors_active {
            return None;
        }
        match prefer {
            Some(n) => {
                match find_due(&self.output_state, Some(n)) {
                    Some(i) => {
                        assert(first_due(self.output_state.entries@, Some(n@), i as int));
                        return Some(self.output_state.entries[i].0.clone());
                    },
                    None => {},
                }
            },
            None => {},
        }
        match find_due(&self.output_state, None) {
            Some(i) => {
                assert(first_due(self.output_state.entries@, None, i as int));
                Some(self.output_state.entries[i].0.clone())
            },
            None => None,
        }
    }
}

/// The state `after` is `before` with the focus on the surface `id`, the change noted in the
/// history with its source, and Emacs told of it if `notify_emacs`.
pub open spec fn focus_set(
    before: Ewm,
    after: Ewm,
    id: u64,
    notify_emacs: bool,
    source: Seq<char>,
    context: Option<Seq<char>>,
) -> bool {
    &&& after == (Ewm {
        focused_surface_id: id,
        keyboard_focus_dirty: true,
        focus_history: after.focus_history,
        effects: after.effects,
        ..before
    })
    &&& focus_recorded(before, after, id, source, context)
    &&& after.effects@ == if notify_emacs {
        before.effects@.push(Effect::Event(Event::Focus { id }))
    } else {
        before.effects@
    }
}

/// The focus change is the last one in the history, and the ones before it are still there as
/// far as there is room.
pub open spec fn focus_recorded(
    before: Ewm,
    after: Ewm,
    id: u64,
    source: Seq<char>,
    context: Option<Seq<char>>,
) -> bool {
    let a = after.focus_history;
    let b = before.focus_history;
    &&& a.next_seq == b.next_seq.wrapping_add(1)
    &&& a.events@.len() == make_room(b.events@).len() + 1
    &&& a.events@.drop_last() == make_room(b.events@)
    &&& records(a.events@.last(), b.next_seq, id, source, context)
}

} // verus!
