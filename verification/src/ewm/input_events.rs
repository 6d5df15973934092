//! Key presses, clicks and pointer motion.
//!
//! A key is handled in three steps: what holds before it, what the filter decides, and what
//! follows from the decision. Between the steps the key goes through the keyboard's state.
use super::focus::{focus_synced, frame_on_focused_output, live_on_demand};
use super::lock::activity_noted;
use super::{focus_recorded, focus_set, Ewm};
use crate::effect::{Effect, FocusTarget};
use crate::event::Event;
use crate::geometry::Point;
use crate::keys::{
    action_for, locked_key_action, vt_of, FilterContext, InterceptKind, KeyboardAction,
};
use crate::layout::Layouts;
use crate::module::record_focus;
use crate::text::{concat2, decimal, hexadecimal, to_decimal, to_hex};
use crate::time::Duration;
use vstd::prelude::*;
use vstd::string::*;

verus! {

/// The state `after` is `before` with the input at `now` noted and idle watchers told.
pub open spec fn activity_told(before: Ewm, after: Ewm, now: Duration) -> bool {
    exists|mid: Ewm|
        {
            &&& mid == (Ewm { effects: mid.effects, ..before })
            &&& mid.effects@ == before.effects@.push(Effect::NotifyActivity)
            &&& #[trigger] activity_noted(mid, after, now)
        }
}

/// The state `after` is `before` with a focus command that was still waiting carried out.
pub open spec fn waiting_focus_set(before: Ewm, after: Ewm, waiting: Option<u64>) -> bool {
    if waiting is Some && before.focused_surface_id != waiting->0 && before.windows@.contains_key(
        waiting->0,
    ) {
        focus_set(
            before,
            after,
            waiting->0,
            false,
            "pending_focus"@,
            Some("keyboard_event"@),
        )
    } else {
        after == before
    }
}

/// The surface that is selected and fullscreen.
pub open spec fn is_fullscreen_selected(l: Layouts, r: Option<u64>) -> bool {
    match r {
        Some(id) => exists|o: int, j: int|
            l.is_fullscreen_focus(o, j) && id == l.outputs.entries@[o].1@[j].id,
        None => forall|o: int, j: int| !l.is_fullscreen_focus(o, j),
    }
}

/// The state `after` is `before` with the focus on a selected fullscreen surface.
pub open spec fn fullscreen_focused(before: Ewm, after: Ewm, fullscreen: Option<u64>) -> bool {
    if fullscreen is Some && before.focused_surface_id != fullscreen->0 {
        exists|mid: Ewm| #[trigger]
            focus_set(
                before,
                mid,
                fullscreen->0,
                false,
                "fullscreen_focus_redirect"@,
                None,
            ) && focus_synced(mid, after)
    } else {
        after == before
    }
}

/// What the filter has to know of a key.
#[derive(Clone, Copy, Debug, PartialEq, Eq, Structural)]
pub struct KeyContext {
    pub filter: FilterContext,
    /// The key is to be seen in the first keyboard layout, and this one restored after it.
    pub saved_layout: Option<usize>,
}

/// Where a redirected key comes from, for the focus history.
pub open spec fn key_source(keycode: u32, keysym: u32) -> Seq<char> {
    "keycode="@ + decimal(keycode as nat) + " keysym=0x"@ + hexadecimal(keysym as nat)
}

fn key_source_text(keycode: u32, keysym: u32) -> (r: String)
    ensures
        r@ == key_source(keycode, keysym),
{
    let a = concat2("keycode=", to_decimal(keycode as u64).as_str());
    let b = concat2(a.as_str(), " keysym=0x");
    concat2(b.as_str(), to_hex(keysym as u64).as_str())
}

/// What follows a redirect: the frame gets the keyboard and the key once more.
pub open spec fn redirect_effects(before: Ewm, id: u64) -> Seq<Effect> {
    if before.windows@.contains_key(id) {
        seq![
            Effect::SetKeyboardFocus { target: FocusTarget::Window(id) },
            Effect::ResendKey {
                base_layout: before.xkb_current_layout != 0 && before.xkb_layout_names@.len() > 0,
                restore: if before.xkb_current_layout != 0 {
                    Some(before.xkb_current_layout)
                } else {
                    None
                },
            },
        ]
    } else {
        Seq::empty()
    }
}

/// The state `after` is `before` with a bound key handed to Emacs. Emacs is not told of the focus:
/// it is temporary.
pub open spec fn redirected(before: Ewm, after: Ewm, keycode: u32, keysym: u32) -> bool {
    match frame_on_focused_output(before) {
        Some(id) => {
            &&& after == (Ewm {
                focused_surface_id: id,
                keyboard_focus_dirty: false,
                focus_history: after.focus_history,
                keyboard_focus: if before.windows@.contains_key(id) {
                    FocusTarget::Window(id)
                } else {
                    before.keyboard_focus
                },
                effects: after.effects,
                ..before
            })
            &&& focus_recorded(
                before,
                after,
                id,
                "intercept_redirect"@,
                Some(key_source(keycode, keysym)),
            )
            &&& after.effects@ == before.effects@ + redirect_effects(before, id)
        },
        None => after == before,
    }
}

/// The state `after` is `before` with a change of the keyboard layout noted and told to Emacs.
pub open spec fn layout_noticed(before: Ewm, after: Ewm, current: usize) -> bool {
    let names = before.xkb_layout_names@;
    if current == before.xkb_current_layout {
        after == before
    } else {
        &&& after == (Ewm { xkb_current_layout: current, effects: after.effects, ..before })
        &&& if names.len() == 0 {
            after.effects@ == before.effects@
        } else {
            exists|layout: String|
                {
                    &&& layout@ == if current < names.len() {
                        names[current as int]@
                    } else {
                        Seq::<char>::empty()
                    }
                    &&& after.effects@ == #[trigger] before.effects@.push(
                        Effect::Event(Event::LayoutSwitched { layout, index: current }),
                    )
                }
        }
    }
}

/// The state `after` follows `before` for a key that goes its normal way.
pub open spec fn key_forwarded(before: Ewm, after: Ewm, layout: usize, now: Duration) -> bool {
    exists|a: Ewm, b: Ewm| #[trigger]
        focus_synced(before, a) && #[trigger] layout_noticed(a, b, layout) && activity_told(
            b,
            after,
            now,
        )
}

/// What restrains the pointer on the surface it is on.
#[derive(Clone, Copy, Debug, PartialEq, Eq, Structural)]
pub enum PointerHold {
    Free,
    /// Locked in place.
    Locked,
    /// Confined to the surface, and to a region of it if there is one.
    Confined,
}

/// What becomes of pointer motion.
#[derive(Clone, Copy, Debug, PartialEq, Eq, Structural)]
pub enum MotionPlan {
    /// The pointer moves.
    Move,
    /// The pointer stays; the surface learns of the motion at most.
    Stay,
    /// The pointer stays, and the user counts as active.
    StayActive,
}

/// How a constraint holds the pointer. `in_region` says whether the pointer is in the region of
/// the constraint, if it has one; outside it the constraint does not apply.
pub fn active_constraint(active: bool, in_region: Option<bool>, locked: bool) -> (r: PointerHold)
    ensures
        r == if !active || in_region == Some(false) {
            PointerHold::Free
        } else if locked {
            PointerHold::Locked
        } else {
            PointerHold::Confined
        },
{
    let outside = match in_region {
        Some(inside) => !inside,
        None => false,
    };
    if !active || outside {
        PointerHold::Free
    } else if locked {
        PointerHold::Locked
    } else {
        PointerHold::Confined
    }
}

/// Whether a constraint of the surface under the pointer is activated: the surface has the
/// pointer's focus, the constraint waits, and the pointer is in its region if it has one.
pub fn maybe_activate_pointer_constraint(
    has_focus: bool,
    active: bool,
    in_region: Option<bool>,
) -> (r: bool)
    ensures
        r == (has_focus && !active && in_region != Some(false)),
{
    let outside = match in_region {
        Some(inside) => !inside,
        None => false,
    };
    has_focus && !active && !outside
}

/// Decides what becomes of pointer motion. `same_surface` and `in_region` say whether the pointer
/// would stay on its surface and in the region that it is confined to.
pub fn plan_motion(hold: PointerHold, same_surface: bool, in_region: bool) -> (r: MotionPlan)
    ensures
        r == match hold {
            PointerHold::Free => MotionPlan::Move,
            PointerHold::Locked => MotionPlan::Stay,
            PointerHold::Confined => if same_surface && in_region {
                MotionPlan::Move
            } else {
                MotionPlan::StayActive
            },
        },
{
    match hold {
        PointerHold::Free => MotionPlan::Move,
        PointerHold::Locked => MotionPlan::Stay,
        PointerHold::Confined => {
            if same_surface && in_region {
                MotionPlan::Move
            } else {
                MotionPlan::StayActive
            }
        },
    }
}

/// The state `after` is `before` with the focus where a click or scroll puts it: on a layer
/// surface that takes it on demand, else on the window under the pointer.
pub open spec fn pointed_at(
    before: Ewm,
    after: Ewm,
    layer: Option<u64>,
    window: Option<u64>,
    source: Seq<char>,
) -> bool {
    exists|mid: Ewm|
        {
            &&& #[trigger] layer_pointed_at(before, mid, layer)
            &&& if layer is None && window is Some {
                focus_set(mid, after, window->0, true, source, None)
            } else {
                after == mid
            }
        }
}

/// The state `after` is `before` with the layer surface under a click noted, or none.
pub open spec fn layer_pointed_at(before: Ewm, after: Ewm, layer: Option<u64>) -> bool {
    let clicked = live_on_demand(before.layers@, layer);
    after == (Ewm {
        on_demand_layer: clicked,
        keyboard_focus_dirty: before.keyboard_focus_dirty || before.on_demand_layer != clicked,
        ..before
    })
}

impl Ewm {
    /// Notify the idle notifier of user activity and reset native idle timer
    pub fn notify_activity(&mut self, now: Duration)
        requires
            old(self).wf(),
        ensures
            final(self).wf(),
            activity_told(*old(self), *final(self), now),
    {
        self.emit(Effect::NotifyActivity);
        let ghost mid = *self;
        self.reset_idle_timer(now);
        assert(activity_noted(mid, *self, now));
    }

    /// A key while the session is locked: only terminal switches are honoured, all else goes to
    /// the lock surface. Gives the action and the lock surface that gets the keyboard first.
    pub fn handle_locked_key(&mut self, is_press: bool, modified: u32, now: Duration) -> (r: (
        KeyboardAction,
        Option<u64>,
    ))
        requires
            old(self).wf(),
        ensures
            final(self).wf(),
            activity_told(*old(self), *final(self), now),
            r.0 == if is_press && vt_of(modified) is Some {
                KeyboardAction::ChangeVt(vt_of(modified)->0)
            } else {
                KeyboardAction::Forward
            },
            r.1 == if r.0 is Forward {
                final(self).lock_focus()
            } else {
                None
            },
    {
        self.notify_activity(now);
        let action = locked_key_action(is_press, modified);
        let surface = match action {
            KeyboardAction::Forward => self.lock_surface_focus(),
            _ => None,
        };
        (action, surface)
    }

    /// Before a key: a waiting focus command is carried out, a selected fullscreen surface gets
    /// the keyboard, and what the filter has to know is gathered.
    pub fn begin_key(&mut self, waiting_focus: Option<u64>, in_prefix_sequence: bool) -> (r:
        KeyContext)
        requires
            old(self).wf(),
        ensures
            final(self).wf(),
            exists|mid: Ewm, fullscreen: Option<u64>|
                {
                    &&& #[trigger] waiting_focus_set(*old(self), mid, waiting_focus)
                    &&& #[trigger] is_fullscreen_selected(mid.layouts, fullscreen)
                    &&& fullscreen_focused(mid, *final(self), fullscreen)
                    &&& r.filter.fullscreen == (fullscreen is Some)
                },
            r.filter.focus_on_emacs == final(self).emacs_surfaces@.contains_key(
                final(self).focused_surface_id,
            ),
            r.filter.text_input_intercept == old(self).text_input_intercept,
            r.saved_layout == if in_prefix_sequence && r.filter.focus_on_emacs && old(
                self,
            ).xkb_current_layout != 0 {
                Some(old(self).xkb_current_layout)
            } else {
                None
            },
    {
        let ghost before = *self;
        match waiting_focus {
            Some(id) => {
                if self.focused_surface_id != id && self.windows.contains(id) {
                    self.set_focus(id, false, "pending_focus", Some("keyboard_event"));
                }
            },
            None => {},
        }
        let ghost mid = *self;
        assert(waiting_focus_set(before, mid, waiting_focus));
        let fullscreen = self.layouts.fullscreen_focus();
        assert(is_fullscreen_selected(mid.layouts, fullscreen));
        match fullscreen {
            Some(id) => {
                if self.focused_surface_id != id {
                    self.set_focus(id, false, "fullscreen_focus_redirect", None);
                    let ghost focused = *self;
                    self.sync_keyboard_focus();
                    assert(focus_synced(focused, *self));
                }
            },
            None => {},
        }
        assert(fullscreen_focused(mid, *self, fullscreen));
        let focus_on_emacs = self.is_focus_on_emacs();
        let saved_layout = if in_prefix_sequence && focus_on_emacs && self.xkb_current_layout != 0 {
            Some(self.xkb_current_layout)
        } else {
            None
        };
        KeyContext {
            filter: FilterContext {
                fullscreen: fullscreen.is_some(),
                focus_on_emacs,
                text_input_intercept: self.text_input_intercept,
            },
            saved_layout,
        }
    }

    /// After the filter: carries out what it decided. `text` is what the key yields, `layout` the
    /// keyboard layout that is active now.
    pub fn finish_key(
        &mut self,
        decided: Option<(InterceptKind, u32)>,
        text: Option<String>,
        keycode: u32,
        layout: usize,
        now: Duration,
    ) -> (r: KeyboardAction)
        requires
            old(self).wf(),
            decided matches Some((InterceptKind::VtSwitch, n)) ==> n <= i32::MAX,
        ensures
            final(self).wf(),
            match decided {
                None => r == KeyboardAction::Forward && key_forwarded(
                    *old(self),
                    *final(self),
                    layout,
                    now,
                ),
                Some((InterceptKind::Kill, _)) => r == KeyboardAction::Shutdown && *final(self)
                    == *old(self),
                Some((InterceptKind::VtSwitch, n)) => r == KeyboardAction::ChangeVt(n as i32)
                    && *final(self) == *old(self),
                Some((InterceptKind::TextInput, keysym)) => {
                    &&& r == KeyboardAction::TextInputIntercepted
                    &&& *final(self) == (Ewm { effects: final(self).effects, ..*old(self) })
                    &&& final(self).effects@ == old(self).effects@.push(
                        Effect::Event(Event::Key { keysym, utf8: text }),
                    )
                },
                Some((InterceptKind::Redirect, keysym)) => r == KeyboardAction::RedirectToEmacs
                    && redirected(*old(self), *final(self), keycode, keysym),
            },
    {
        let ghost before = *self;
        match decided {
            Some((kind, number)) => {
                match kind {
                    InterceptKind::TextInput => {
                        self.queue_event(Event::Key { keysym: number, utf8: text });
                    },
                    InterceptKind::Redirect => {
                        self.redirect_to_emacs(keycode, number);
                    },
                    _ => {},
                }
                action_for(decided)
            },
            None => {
                self.sync_keyboard_focus();
                let ghost a = *self;
                self.notice_layout(layout);
                let ghost b = *self;
                self.notify_activity(now);
                assert(focus_synced(before, a) && layout_noticed(a, b, layout));
                KeyboardAction::Forward
            },
        }
    }

    fn redirect_to_emacs(&mut self, keycode: u32, keysym: u32)
        requires
            old(self).wf(),
        ensures
            final(self).wf(),
            redirected(*old(self), *final(self), keycode, keysym),
    {
        let ghost before = *self;
        match self.get_emacs_surface_for_focused_output() {
            Some(id) => {
                let context = key_source_text(keycode, keysym);
                record_focus(
                    &mut self.focus_history,
                    id,
                    "intercept_redirect",
                    Some(context.as_str()),
                );
                self.focused_surface_id = id;
                self.keyboard_focus_dirty = false;
                if self.windows.contains(id) {
                    let target = FocusTarget::Window(id);
                    self.keyboard_focus = target;
                    self.emit(Effect::SetKeyboardFocus { target });
                    let saved: usize = self.xkb_current_layout;
                    let base_layout = saved != 0 && self.xkb_layout_names.len() > 0;
                    let restore = if saved != 0 {
                        Some(saved)
                    } else {
                        None
                    };
                    self.emit(Effect::ResendKey { base_layout, restore });
                }
                assert(self.effects@ =~= before.effects@ + redirect_effects(before, id));
            },
            None => {},
        }
    }

    fn notice_layout(&mut self, current: usize)
        requires
            old(self).wf(),
        ensures
            final(self).wf(),
            layout_noticed(*old(self), *final(self), current),
    {
        if current == self.xkb_current_layout {
            return ;
        }
        self.xkb_current_layout = current;
        if self.xkb_layout_names.len() > 0 {
            proof {
                reveal_strlit("");
                assert(""@ =~= Seq::<char>::empty());
            }
            let layout = if current < self.xkb_layout_names.len() {
                self.xkb_layout_names[current].clone()
            } else {
                "".to_owned()
            };
            self.queue_event(Event::LayoutSwitched { layout, index: current });
        }
    }

    /// The keyboard lets go of all keys and of its surface.
    pub fn release_all_keys(&mut self, any_pressed: bool)
        requires
            old(self).wf(),
        ensures
            final(self).wf(),
            *final(self) == if any_pressed {
                Ewm { keyboard_focus: FocusTarget::Nobody, ..*old(self) }
            } else {
                *old(self)
            },
    {
        if any_pressed {
            self.keyboard_focus = FocusTarget::Nobody;
        }
    }

    /// Restore focus to a specific surface
    pub fn restore_focus(&mut self, surface_id: u64)
        requires
            old(self).wf(),
        ensures
            final(self).wf(),
            if old(self).windows@.contains_key(surface_id) {
                focus_synced(
                    (Ewm {
                        focused_surface_id: surface_id,
                        keyboard_focus_dirty: true,
                        ..*old(self)
                    }),
                    *final(self),
                )
            } else {
                *final(self) == *old(self)
            },
    {
        if self.windows.contains(surface_id) {
            self.focused_surface_id = surface_id;
            self.keyboard_focus_dirty = true;
            self.sync_keyboard_focus();
        }
    }

    /// A button or the wheel was used over this layer surface or window. Outside a locked session
    /// a press or a scroll moves the focus there.
    pub fn pointer_used(
        &mut self,
        pressed: bool,
        layer: Option<u64>,
        window: Option<u64>,
        scroll: bool,
        now: Duration,
    )
        requires
            old(self).wf(),
        ensures
            final(self).wf(),
            exists|a: Ewm, b: Ewm|
                {
                    &&& if pressed && old(self).lock_state is Unlocked {
                        pointed_at(
                            *old(self),
                            a,
                            layer,
                            window,
                            if scroll {
                                "scroll"@
                            } else {
                                "click"@
                            },
                        )
                    } else {
                        a == *old(self)
                    }
                    &&& #[trigger] focus_synced(a, b)
                    &&& activity_told(b, *final(self), now)
                },
    {
        let ghost before = *self;
        if pressed && !self.is_locked() {
            self.focus_layer_surface_if_on_demand(layer);
            let ghost mid = *self;
            assert(layer_pointed_at(before, mid, layer));
            if layer.is_none() {
                match window {
                    Some(id) => {
                        if scroll {
                            self.set_focus(id, true, "scroll", None);
                        } else {
                            self.set_focus(id, true, "click", None);
                        }
                    },
                    None => {},
                }
            }
        }
        let ghost a = *self;
        self.sync_keyboard_focus();
        let ghost b = *self;
        self.notify_activity(now);
        assert(focus_synced(a, b));
    }

    /// The pointer is at this place now.
    pub fn pointer_moved(&mut self, at: Point)
        requires
            old(self).wf(),
        ensures
            final(self).wf(),
            *final(self) == (Ewm { pointer: at, ..*old(self) }),
    {
        self.pointer = at;
    }
}

/// A key that was redirected puts the keyboard on an Emacs frame without telling Emacs, and marks
/// nothing as changed: the next key finds the focus where the redirect put it.
pub proof fn law_redirect_is_silent(before: Ewm, after: Ewm, keycode: u32, keysym: u32, id: u64)
    requires
        redirected(before, after, keycode, keysym),
        frame_on_focused_output(before) == Some(id),
        before.windows@.contains_key(id),
    ensures
        after.focused_surface_id == id,
        after.keyboard_focus == FocusTarget::Window(id),
        !after.keyboard_focus_dirty,
        forall|k: int|
            before.effects@.len() <= k < after.effects@.len() ==> !((#[trigger] after.effects@[k])
                is Event),
{
}

} // verus!
