//! Windows coming, going, and asking for things.
use super::focus::{focus_synced, frame_for, name_view, preferred_output, surface_output};
use super::layouts::{outputs_showing, some_requested};
use super::outputs::{sessions_of, stop_effects, zone_corner};
use super::{focus_set, Ewm, SurfaceInfo, WindowState};
use crate::dbus::CastTarget;
use crate::effect::Effect;
use crate::event::Event;
use crate::geometry::Point;
use crate::layout::{surface_dropped, MappedOutput};
use crate::module::{take_pending_frame_output, PendingFrameOutputs};
use crate::outputs::{all_requested, one_requested};
use crate::redraw::OutputState;
use crate::text::{contains_str, holds_text, str_eq, text_from_bytes, trim, trimmed};
use crate::time::Duration;
use vstd::prelude::*;
use vstd::string::*;
use vstd::utf8::*;

verus! {

/// Where a frame is put whose output is not there: out of sight.
pub const OUT_OF_SIGHT: i32 = -10000;

/// The name of the program that a window belongs to: what the window says, else the name of its
/// process, else nothing is known.
pub open spec fn program_name(app_id: Option<Seq<char>>, comm: Option<Seq<char>>) -> Seq<char> {
    match app_id {
        Some(a) => a,
        None => match comm {
            Some(c) => trimmed(c),
            None => "unknown"@,
        },
    }
}

/// The name of the program that a window belongs to. `comm` is what the system reports as the
/// name of its process.
pub fn window_program(app_id: Option<String>, comm: Option<String>) -> (r: String)
    ensures
        r@ == program_name(name_view(app_id), name_view(comm)),
{
    match app_id {
        Some(a) => a,
        None => {
            match comm {
                Some(c) => trim(c.as_str()),
                None => "unknown".to_owned(),
            }
        },
    }
}

/// The output that a new window's scale is taken from: its target where that is mapped, else the
/// first.
pub open spec fn scale_output(e: Ewm, target: Option<Seq<char>>) -> Option<Seq<char>> {
    if target is Some && e.space@.contains_key(target->0) {
        target
    } else if e.space.entries@.len() > 0 {
        Some(e.space.entries@[0].0@)
    } else {
        None
    }
}

/// Where a new frame for the output is put.
pub open spec fn frame_corner(e: Ewm, output: Seq<char>) -> Point {
    if e.space@.contains_key(output) {
        zone_corner(e.space@[output])
    } else {
        Point { x: OUT_OF_SIGHT, y: OUT_OF_SIGHT }
    }
}

/// A window as it starts: asked to fill the free area of the output that it was made for, or
/// everything.
pub open spec fn new_window(e: Ewm, frame_output: Option<Seq<char>>) -> WindowState {
    match frame_output {
        Some(o) => WindowState {
            size: if e.space@.contains_key(o) {
                Some(e.space@[o].zone.size)
            } else {
                Some(e.output_size)
            },
            maximized: true,
            fullscreen: false,
            at: Some(frame_corner(e, o)),
        },
        None => WindowState {
            size: Some(e.output_size),
            maximized: true,
            fullscreen: false,
            at: None,
        },
    }
}

/// The output that a new window belongs to: the one that Emacs asked for, else the preferred one.
pub open spec fn target_output(e: Ewm, frame_output: Option<Seq<char>>) -> Option<Seq<char>> {
    if frame_output is Some {
        frame_output
    } else {
        preferred_output(e)
    }
}

/// What a new window is told: a first size, the scale of an output, and for a frame its place
/// and size.
pub open spec fn new_window_effects(
    e: Ewm,
    id: u64,
    scale: Option<String>,
    frame_output: Option<Seq<char>>,
) -> Seq<Effect> {
    seq![Effect::Configure { id }] + (match scale {
        Some(output) => seq![Effect::SendScale { output, id }, Effect::Enter { output, id }],
        None => Seq::empty(),
    }) + (match frame_output {
        Some(o) => if e.space@.contains_key(o) {
            seq![Effect::MapFrame { id, at: frame_corner(e, o) }, Effect::Configure { id }]
        } else {
            seq![Effect::MapFrame { id, at: frame_corner(e, o) }]
        },
        None => Seq::empty(),
    })
}

/// The process number, zero where it is not known.
pub open spec fn pid_or_zero(pid: Option<i32>) -> i32 {
    match pid {
        Some(p) => p,
        None => 0,
    }
}

/// The process is that of Emacs.
pub open spec fn is_emacs_pid(e: Ewm, pid: Option<i32>) -> bool {
    e.emacs_pid is Some && pid == Some(e.emacs_pid->0 as i32)
}

/// The output that the next frame was announced for.
pub open spec fn next_frame(pending: Seq<String>) -> Option<Seq<char>> {
    if pending.len() > 0 {
        Some(pending[0]@)
    } else {
        None
    }
}

/// The state `after` is `before` with new content of a window noted: its outputs are redrawn,
/// and the app id and title are checked where its root surface committed.
pub open spec fn content_noted(
    before: Ewm,
    after: Ewm,
    id: u64,
    root: bool,
    app_id: String,
    title: String,
) -> bool {
    exists|mid: Ewm| #[trigger]
        surface_redrawn(before, mid, id) && if root {
            info_checked(mid, after, id, app_id, title)
        } else {
            after == mid
        }
}

/// The state `after` is `before` with new content of a lock surface noted: the first output that
/// it locks is redrawn while the session is locked.
pub open spec fn lock_content_noted(before: Ewm, after: Ewm, surface: u64) -> bool {
    &&& after == (Ewm { output_state: after.output_state, ..before })
    &&& after.output_state.entries@ == if !(before.lock_state is Unlocked) && first_locked_by(
        before.output_state.entries@,
        surface,
    ) is Some {
        one_requested(
            before.output_state.entries@,
            first_locked_by(before.output_state.entries@, surface)->0,
        )
    } else {
        before.output_state.entries@
    }
}

/// The state `after` is `before` with redraws requested where the surface is shown.
pub open spec fn surface_redrawn(before: Ewm, after: Ewm, id: u64) -> bool {
    &&& after == (Ewm { output_state: after.output_state, ..before })
    &&& after.output_state.entries@ == match outputs_showing(before, id) {
        Some(chosen) => some_requested(before.output_state.entries@, before.space@, chosen),
        None => all_requested(before.output_state.entries@),
    }
}

/// The state `after` is `before` with the new window `id` in it. `target` is the output that it
/// belongs to, `scale` the one whose scale it starts with.
pub open spec fn window_added(
    before: Ewm,
    after: Ewm,
    app: String,
    client_pid: Option<i32>,
    frame_output: Option<Seq<char>>,
    target: Option<String>,
    scale: Option<String>,
) -> bool {
    let id = before.next_surface_id;
    let pid = pid_or_zero(client_pid);
    let is_emacs = is_emacs_pid(before, client_pid);
    &&& after == (Ewm {
        next_surface_id: (id + 1) as u64,
        windows: after.windows,
        surface_info: after.surface_info,
        emacs_surfaces: after.emacs_surfaces,
        effects: after.effects,
        ..before
    })
    &&& name_view(target) == target_output(before, frame_output)
    &&& name_view(scale) == scale_output(before, name_view(target))
    &&& after.windows@ == before.windows@.insert(id, new_window(before, frame_output))
    &&& after.surface_info@.dom() == before.surface_info@.dom().insert(id)
    &&& after.surface_info@[id].app_id == app
    &&& after.surface_info@[id].title@ == Seq::<char>::empty()
    &&& forall|k: u64|
        k != id && before.surface_info@.contains_key(k) ==> #[trigger] after.surface_info@[k]
            == before.surface_info@[k]
    &&& if is_emacs {
        &&& after.emacs_surfaces@.dom() == before.emacs_surfaces@.dom().insert(id)
        &&& after.emacs_surfaces@[id]@ == match target {
            Some(t) => t@,
            None => Seq::<char>::empty(),
        }
        &&& forall|k: u64|
            k != id && before.emacs_surfaces@.contains_key(k) ==> #[trigger] after.emacs_surfaces@[k]
                == before.emacs_surfaces@[k]
    } else {
        after.emacs_surfaces == before.emacs_surfaces
    }
    &&& after.effects@ == before.effects@ + new_window_effects(
        before,
        id,
        scale,
        frame_output,
    ).push(Effect::Event(Event::New { id, app, output: target, pid }))
}

/// The state `after` is `before` without the window: it is in no table and no layout, Emacs is
/// told, and its casts are stopped.
pub open spec fn window_dropped(before: Ewm, after: Ewm, id: u64) -> bool {
    &&& after == (Ewm {
        windows: after.windows,
        surface_info: after.surface_info,
        layouts: after.layouts,
        emacs_surfaces: after.emacs_surfaces,
        window_cast_output: after.window_cast_output,
        screen_casts: after.screen_casts,
        effects: after.effects,
        ..before
    })
    &&& after.windows@ == before.windows@.remove(id)
    &&& after.surface_info@ == before.surface_info@.remove(id)
    &&& after.emacs_surfaces@ == before.emacs_surfaces@.remove(id)
    &&& after.window_cast_output@ == before.window_cast_output@.remove(id)
    &&& surface_dropped(before.layouts, after.layouts, id)
    &&& after.screen_casts@ == before.screen_casts@.remove_keys(
        sessions_of(before.screen_casts.entries@, id).to_set(),
    )
    &&& after.effects@ == before.effects@.push(Effect::Event(Event::Close { id })) + stop_effects(
        sessions_of(before.screen_casts.entries@, id),
    )
}

/// The surface that gets the focus of a window that is gone: an Emacs frame of the same output,
/// else the first surface.
pub open spec fn refocus_target(before: Ewm, after: Ewm, id: u64) -> u64 {
    match surface_output(before, id) {
        Some(output) => match frame_for(after.emacs_surfaces.entries@, output) {
            Some(frame) => frame,
            None => 1,
        },
        None => 1,
    }
}

/// The state `after` is `before` with the window `id` destroyed.
pub open spec fn window_destroyed(before: Ewm, after: Ewm, id: u64) -> bool {
    exists|dropped: Ewm|
        {
            &&& #[trigger] window_dropped(before, dropped, id)
            &&& after == (Ewm { effects: after.effects, ..dropped })
            &&& after.effects@ == if before.windows@[id].at is Some {
                dropped.effects@.push(Effect::UnmapFrame { id })
            } else {
                dropped.effects@
            }
        }
}

/// The windows `after` the dead ones among `ids` were dropped in order.
pub open spec fn dead_dropped(before: Ewm, after: Ewm, ids: Seq<u64>) -> bool
    decreases ids.len(),
{
    if ids.len() == 0 {
        after == before
    } else {
        exists|mid: Ewm|
            dead_dropped(before, mid, ids.drop_last()) && #[trigger] dead_step(
                mid,
                after,
                ids.last(),
            )
    }
}

/// The state `after` is `before` without the dead window, if there is such a window.
pub open spec fn dead_step(before: Ewm, after: Ewm, id: u64) -> bool {
    if before.windows@.contains_key(id) {
        window_dropped(before, after, id)
    } else {
        after == before
    }
}

/// Taking each frame among `ids` off the screen.
pub open spec fn unmap_effects(windows: Map<u64, WindowState>, ids: Seq<u64>) -> Seq<Effect>
    decreases ids.len(),
{
    if ids.len() == 0 {
        Seq::empty()
    } else {
        let head = unmap_effects(windows, ids.drop_last());
        if windows.contains_key(ids.last()) && windows[ids.last()].at is Some {
            head.push(Effect::UnmapFrame { id: ids.last() })
        } else {
            head
        }
    }
}

/// What a window's client asks Emacs for.
#[derive(Clone, Copy, Debug, PartialEq, Eq, Structural)]
pub enum WindowRequest {
    Minimize,
    Unfullscreen,
    Maximize,
    Unmaximize,
}

impl Ewm {
    /// Handle a new toplevel surface. Gives the number of the window.
    pub fn handle_new_toplevel(
        &mut self,
        app: String,
        client_pid: Option<i32>,
        pending: &mut PendingFrameOutputs,
    ) -> (r: u64)
        requires
            old(self).wf(),
            old(self).next_surface_id < u64::MAX,
        ensures
            final(self).wf(),
            r == old(self).next_surface_id,
            exists|target: Option<String>, scale: Option<String>| #[trigger]
                window_added(
                    *old(self),
                    *final(self),
                    app,
                    client_pid,
                    next_frame(old(pending).outputs@),
                    target,
                    scale,
                ),
            final(pending).outputs@ == if old(pending).outputs@.len() > 0 {
                old(pending).outputs@.subrange(1, old(pending).outputs@.len() as int)
            } else {
                old(pending).outputs@
            },
    {
        let ghost before = *self;
        let id: u64 = self.next_surface_id;
        let is_emacs = self.is_emacs_client(client_pid);
        let pid: i32 = match client_pid {
            Some(p) => p,
            None => 0,
        };
        let frame_output = take_pending_frame_output(pending);
        let target = match &frame_output {
            Some(o) => Some(o.clone()),
            None => self.active_output(),
        };
        let scale = self.first_scale_output(&target);
        let ghost fo = name_view(frame_output);
        assert(name_view(target) == target_output(before, fo));
        self.next_surface_id = id + 1;
        self.greet_window(id, &scale, &frame_output);
        let ghost greeted = *self;
        let tracked_app = app.clone();
        self.note_window(id, is_emacs, tracked_app, &target);
        self.queue_event(Event::New { id, app, output: target, pid });
        proof {
            let ev = Effect::Event(Event::New { id, app, output: target, pid });
            let told = new_window_effects(before, id, scale, fo);
            assert(before.effects@ + told.push(ev) =~= (before.effects@ + told).push(ev));
            assert(window_added(before, *self, app, client_pid, fo, target, scale));
        }
        id
    }

    /// Enters a new window in the tables of programs and frames.
    fn note_window(&mut self, id: u64, is_emacs: bool, app: String, target: &Option<String>)
        requires
            old(self).wf(),
        ensures
            final(self).wf(),
            *final(self) == (Ewm {
                surface_info: final(self).surface_info,
                emacs_surfaces: final(self).emacs_surfaces,
                ..*old(self)
            }),
            exists|info: SurfaceInfo|
                {
                    &&& final(self).surface_info@ == #[trigger] old(self).surface_info@.insert(
                        id,
                        info,
                    )
                    &&& info.app_id == app
                    &&& info.title@ == Seq::<char>::empty()
                },
            !is_emacs ==> final(self).emacs_surfaces == old(self).emacs_surfaces,
            is_emacs ==> exists|name: String|
                {
                    &&& final(self).emacs_surfaces@ == #[trigger] old(self).emacs_surfaces@.insert(
                        id,
                        name,
                    )
                    &&& name@ == match *target {
                        Some(t) => t@,
                        None => Seq::<char>::empty(),
                    }
                },
    {
        proof {
            reveal_strlit("");
            assert(""@ =~= Seq::<char>::empty());
        }
        if is_emacs {
            let name = match target {
                Some(t) => t.clone(),
                None => "".to_owned(),
            };
            self.emacs_surfaces.insert(id, name);
        }
        self.surface_info.insert(id, SurfaceInfo { app_id: app, title: "".to_owned() });
    }

    /// Tells a new window its first size, scale and place, and enters it in the table.
    fn greet_window(&mut self, id: u64, scale: &Option<String>, frame_output: &Option<String>)
        requires
            old(self).wf(),
            1 <= id < old(self).next_surface_id,
        ensures
            final(self).wf(),
            *final(self) == (Ewm {
                windows: final(self).windows,
                effects: final(self).effects,
                ..*old(self)
            }),
            final(self).windows@ == old(self).windows@.insert(
                id,
                new_window(*old(self), name_view(*frame_output)),
            ),
            final(self).effects@ == old(self).effects@ + new_window_effects(
                *old(self),
                id,
                *scale,
                name_view(*frame_output),
            ),
    {
        let ghost before = *self;
        let ghost fo = name_view(*frame_output);
        self.emit(Effect::Configure { id });
        match scale {
            Some(o) => {
                self.emit(Effect::SendScale { output: o.clone(), id });
                self.emit(Effect::Enter { output: o.clone(), id });
            },
            None => {},
        }
        let mut w = WindowState {
            size: Some(self.output_size),
            maximized: true,
            fullscreen: false,
            at: None,
        };
        match frame_output {
            Some(o) => {
                let at = self.frame_position(o.as_str());
                w.at = Some(at);
                self.emit(Effect::MapFrame { id, at });
                match self.get_working_area(o.as_str()) {
                    Some(zone) => {
                        w.size = Some(zone.size);
                        self.emit(Effect::Configure { id });
                    },
                    None => {},
                }
            },
            None => {},
        }
        assert(self.effects@ =~= before.effects@ + new_window_effects(before, id, *scale, fo));
        self.windows.insert(id, w);
    }

    fn first_scale_output(&self, target: &Option<String>) -> (r: Option<String>)
        requires
            self.wf(),
        ensures
            name_view(r) == scale_output(*self, name_view(*target)),
    {
        match target {
            Some(t) => {
                if self.space.contains(t.as_str()) {
                    return Some(t.clone());
                }
            },
            None => {},
        }
        if self.space.entries.len() > 0 {
            Some(self.space.entries[0].0.clone())
        } else {
            None
        }
    }

    fn frame_position(&self, output: &str) -> (r: Point)
        requires
            self.wf(),
        ensures
            r == frame_corner(*self, output@),
    {
        match self.space.find(output) {
            Some(i) => {
                assert(super::outputs::place_ok(self.space.entries@[i as int].1));
                let m: MappedOutput = self.space.entries[i].1;
                Point { x: m.geo.loc.x + m.zone.loc.x, y: m.geo.loc.y + m.zone.loc.y }
            },
            None => Point { x: OUT_OF_SIGHT, y: OUT_OF_SIGHT },
        }
    }

    /// Forgets a window, tells Emacs and stops its casts.
    fn drop_window(&mut self, id: u64)
        requires
            old(self).wf(),
        ensures
            final(self).wf(),
            window_dropped(*old(self), *final(self), id),
    {
        let _w = self.windows.remove(id);
        let _i = self.surface_info.remove(id);
        self.layouts.remove_surface_from_layouts(id);
        let _e = self.emacs_surfaces.remove(id);
        let _c = self.window_cast_output.remove(id);
        self.queue_event(Event::Close { id });
        self.stop_casts_for_window(id);
    }

    /// Handle a destroyed toplevel.
    /// Returns surface ID to refocus, if any.
    pub fn handle_toplevel_destroyed(&mut self, id: u64) -> (r: Option<u64>)
        requires
            old(self).wf(),
        ensures
            final(self).wf(),
            !old(self).windows@.contains_key(id) ==> *final(self) == *old(self) && r is None,
            old(self).windows@.contains_key(id) ==> {
                &&& window_destroyed(*old(self), *final(self), id)
                &&& r == if old(self).focused_surface_id == id {
                    Some(refocus_target(*old(self), *final(self), id))
                } else {
                    None
                }
            },
    {
        let ghost before = *self;
        let at: Option<Point> = match self.windows.get(id) {
            Some(w) => w.at,
            None => {
                return None;
            },
        };
        let was_focused = self.focused_surface_id == id;
        let output = self.find_surface_output(id);
        self.drop_window(id);
        let ghost dropped = *self;
        assert(window_dropped(before, dropped, id));
        if at.is_some() {
            self.emit(Effect::UnmapFrame { id });
        }
        if was_focused {
            let frame = match &output {
                Some(o) => self.frame_on(o.as_str()),
                None => None,
            };
            return match frame {
                Some(f) => Some(f),
                None => Some(1),
            };
        }
        None
    }

    /// A toplevel was destroyed: forgets it, and moves the focus on where it had it.
    pub fn toplevel_destroyed(&mut self, id: u64)
        requires
            old(self).wf(),
        ensures
            final(self).wf(),
            !old(self).windows@.contains_key(id) ==> *final(self) == *old(self),
            old(self).windows@.contains_key(id) ==> exists|gone: Ewm| #[trigger]
                window_destroyed(*old(self), gone, id) && if old(self).focused_surface_id == id {
                    exists|focused: Ewm| #[trigger]
                        focus_set(
                            gone,
                            focused,
                            refocus_target(*old(self), gone, id),
                            true,
                            "toplevel_destroyed"@,
                            None,
                        ) && focus_synced(focused, *final(self))
                } else {
                    *final(self) == gone
                },
    {
        let refocus = self.handle_toplevel_destroyed(id);
        let ghost gone = *self;
        match refocus {
            Some(target) => {
                self.set_focus(target, true, "toplevel_destroyed", None);
                let ghost focused = *self;
                self.sync_keyboard_focus();
                assert(focus_synced(focused, *self));
            },
            None => {},
        }
    }

    /// Remove dead windows. `dead` are those whose clients are gone.
    pub fn cleanup_dead_windows(&mut self, dead: &Vec<u64>)
        requires
            old(self).wf(),
        ensures
            final(self).wf(),
            exists|mid: Ewm|
                {
                    &&& mid == (Ewm { effects: mid.effects, ..*old(self) })
                    &&& mid.effects@ == old(self).effects@ + unmap_effects(
                        old(self).windows@,
                        dead@,
                    )
                    &&& #[trigger] dead_dropped(mid, *final(self), dead@)
                },
    {
        let ghost before = *self;
        let mut i: usize = 0;
        assert(dead@.subrange(0, 0) =~= Seq::<u64>::empty());
        assert(self.effects@ =~= before.effects@ + unmap_effects(
            before.windows@,
            dead@.subrange(0, 0),
        ));
        while i < dead.len()
            invariant
                i <= dead@.len(),
                before.wf(),
                *self == (Ewm { effects: self.effects, ..before }),
                self.effects@ == before.effects@ + unmap_effects(
                    before.windows@,
                    dead@.subrange(0, i as int),
                ),
            decreases dead@.len() - i,
        {
            let ghost post = dead@.subrange(0, i + 1);
            assert(post.drop_last() =~= dead@.subrange(0, i as int));
            let mapped = match self.windows.get(dead[i]) {
                Some(w) => w.at.is_some(),
                None => false,
            };
            if mapped {
                self.emit(Effect::UnmapFrame { id: dead[i] });
            }
            i = i + 1;
            assert(self.effects@ =~= before.effects@ + unmap_effects(before.windows@, post));
        }
        let ghost mid = *self;
        assert(dead@.subrange(0, i as int) =~= dead@);
        i = 0;
        while i < dead.len()
            invariant
                i <= dead@.len(),
                self.wf(),
                dead_dropped(mid, *self, dead@.subrange(0, i as int)),
            decreases dead@.len() - i,
        {
            let ghost post = dead@.subrange(0, i + 1);
            assert(post.drop_last() =~= dead@.subrange(0, i as int));
            let ghost prev = *self;
            let id: u64 = dead[i];
            if self.windows.contains(id) {
                self.drop_window(id);
            }
            i = i + 1;
            proof {
                lemma_dead_step(mid, prev, *self, post);
            }
        }
        assert(dead@.subrange(0, i as int) =~= dead@);
    }

    /// A window committed new state with this app id and title: notes a change and tells Emacs
    /// of it, except for its own frames.
    pub fn check_surface_info_changes(&mut self, id: u64, app_id: String, title: String)
        requires
            old(self).wf(),
        ensures
            final(self).wf(),
            info_checked(*old(self), *final(self), id, app_id, title),
    {
        if !self.windows.contains(id) {
            return ;
        }
        let changed = match self.surface_info.get(id) {
            Some(info) => !str_eq(info.app_id.as_str(), app_id.as_str()) || !str_eq(
                info.title.as_str(),
                title.as_str(),
            ),
            None => true,
        };
        if changed && (app_id.as_str().unicode_len() > 0 || title.as_str().unicode_len() > 0) {
            self.surface_info.insert(
                id,
                SurfaceInfo { app_id: app_id.clone(), title: title.clone() },
            );
            if !self.emacs_surfaces.contains(id) {
                self.queue_event(Event::Title { id, app: app_id, title });
            }
        }
    }

    /// A window committed: its outputs are redrawn, and if it was its root surface, its app id
    /// and title are checked.
    pub fn window_committed(&mut self, id: u64, root: bool, app_id: String, title: String)
        requires
            old(self).wf(),
            old(self).windows@.contains_key(id),
        ensures
            final(self).wf(),
            content_noted(*old(self), *final(self), id, root, app_id, title),
    {
        self.queue_redraw_for_surface(id);
        let ghost mid = *self;
        assert(surface_redrawn(*old(self), mid, id));
        if root {
            self.check_surface_info_changes(id, app_id, title);
        }
    }

    /// A surface that is no window committed while the session may be locked: the first output
    /// that it locks is redrawn.
    pub fn lock_surface_committed(&mut self, surface: u64)
        requires
            old(self).wf(),
        ensures
            final(self).wf(),
            lock_content_noted(*old(self), *final(self), surface),
    {
        if !self.is_locked() {
            return ;
        }
        let mut found: Option<String> = None;
        let mut i: usize = 0;
        let ghost all = self.output_state.entries@;
        while i < self.output_state.entries.len()
            invariant
                all == self.output_state.entries@,
                i <= all.len(),
                name_view(found) == first_locked_by(all.subrange(0, i as int), surface),
            decreases all.len() - i,
        {
            assert(all.subrange(0, i + 1).drop_last() =~= all.subrange(0, i as int));
            if found.is_none() {
                match self.output_state.entries[i].1.lock_surface {
                    Some(s) => {
                        if s == surface {
                            found = Some(self.output_state.entries[i].0.clone());
                        }
                    },
                    None => {},
                }
            }
            i = i + 1;
        }
        assert(all.subrange(0, i as int) =~= all);
        match found {
            Some(name) => {
                self.queue_redraw(name.as_str());
            },
            None => {},
        }
    }

    /// A client asks for its window to be fullscreen, on the output that it names or else the
    /// one that it is on.
    pub fn fullscreen_request(&mut self, id: u64, wanted: Option<String>)
        requires
            old(self).wf(),
        ensures
            final(self).wf(),
            *final(self) == (Ewm { effects: final(self).effects, ..*old(self) }),
            !old(self).windows@.contains_key(id) ==> final(self).effects@ == old(self).effects@,
            old(self).windows@.contains_key(id) ==> exists|output: Option<String>|
                {
                    &&& name_view(output) == if wanted is Some {
                        name_view(wanted)
                    } else {
                        surface_output(*old(self), id)
                    }
                    &&& final(self).effects@ == #[trigger] old(self).effects@.push(
                        Effect::Event(Event::FullscreenRequest { id, output }),
                    )
                },
    {
        if !self.windows.contains(id) {
            return ;
        }
        let output = match wanted {
            Some(o) => Some(o),
            None => self.find_surface_output(id),
        };
        self.queue_event(Event::FullscreenRequest { id, output });
    }

    /// A client asks something of Emacs for its window.
    pub fn window_request(&mut self, id: u64, request: WindowRequest)
        requires
            old(self).wf(),
        ensures
            final(self).wf(),
            *final(self) == (Ewm { effects: final(self).effects, ..*old(self) }),
            final(self).effects@ == if old(self).windows@.contains_key(id) {
                old(self).effects@.push(
                    Effect::Event(
                        match request {
                            WindowRequest::Minimize => Event::Minimize { id },
                            WindowRequest::Unfullscreen => Event::UnfullscreenRequest { id },
                            WindowRequest::Maximize => Event::MaximizeRequest { id },
                            WindowRequest::Unmaximize => Event::UnmaximizeRequest { id },
                        },
                    ),
                )
            } else {
                old(self).effects@
            },
    {
        if !self.windows.contains(id) {
            return ;
        }
        let event = match request {
            WindowRequest::Minimize => Event::Minimize { id },
            WindowRequest::Unfullscreen => Event::UnfullscreenRequest { id },
            WindowRequest::Maximize => Event::MaximizeRequest { id },
            WindowRequest::Unmaximize => Event::UnmaximizeRequest { id },
        };
        self.queue_event(event);
    }

    /// A taskbar or the like asks for the window to be closed.
    pub fn close(&mut self, id: u64)
        requires
            old(self).wf(),
        ensures
            final(self).wf(),
            *final(self) == (Ewm { effects: final(self).effects, ..*old(self) }),
            final(self).effects@ == if old(self).windows@.contains_key(id) {
                old(self).effects@.push(Effect::SendClose { id })
            } else {
                old(self).effects@
            },
    {
        if self.windows.contains(id) {
            self.emit(Effect::SendClose { id });
        }
    }

    /// A pager asks for a workspace of the output.
    pub fn activate_workspace(&mut self, output: String, tab_index: usize)
        requires
            old(self).wf(),
        ensures
            final(self).wf(),
            *final(self) == (Ewm { effects: final(self).effects, ..*old(self) }),
            final(self).effects@ == old(self).effects@.push(
                Effect::Event(Event::ActivateWorkspace { output, tab_index }),
            ),
    {
        self.queue_event(Event::ActivateWorkspace { output, tab_index });
    }

    /// Taskbars may not change the window: it is an Emacs frame.
    pub fn is_read_only_surface(&self, window: Option<u64>) -> (r: bool)
        requires
            self.wf(),
        ensures
            r == (window is Some && self.emacs_surfaces@.contains_key(window->0)),
    {
        match window {
            Some(id) => self.emacs_surfaces.contains(id),
            None => false,
        }
    }

    /// A taskbar or the like asks for the window to be focused.
    pub fn activate(&mut self, id: u64)
        requires
            old(self).wf(),
        ensures
            final(self).wf(),
            old(self).windows@.contains_key(id) ==> focus_set(
                *old(self),
                *final(self),
                id,
                true,
                "foreign_toplevel"@,
                None,
            ),
            !old(self).windows@.contains_key(id) ==> *final(self) == *old(self),
    {
        if self.windows.contains(id) {
            self.set_focus(id, true, "foreign_toplevel", None);
        }
    }

    /// A client asks for its window to be focused with an activation token of this age. A token
    /// is good for ten seconds.
    pub fn request_activation(&mut self, id: u64, age: Duration)
        requires
            old(self).wf(),
        ensures
            final(self).wf(),
            old(self).windows@.contains_key(id) && age@ < 10_000_000_000 ==> focus_set(
                *old(self),
                *final(self),
                id,
                true,
                "xdg_activation"@,
                None,
            ),
            !(old(self).windows@.contains_key(id) && age@ < 10_000_000_000) ==> *final(self)
                == *old(self),
    {
        if age.less(&Duration::from_secs(10)) && self.windows.contains(id) {
            self.set_focus(id, true, "xdg_activation", None);
        }
    }
}

/// Dropping the next dead window.
proof fn lemma_dead_step(a: Ewm, b: Ewm, c: Ewm, ids: Seq<u64>)
    requires
        ids.len() > 0,
        dead_dropped(a, b, ids.drop_last()),
        dead_step(b, c, ids.last()),
    ensures
        dead_dropped(a, c, ids),
{
}

/// The state `after` is `before` with the app id and title of the window noted if they changed.
pub open spec fn info_checked(
    before: Ewm,
    after: Ewm,
    id: u64,
    app_id: String,
    title: String,
) -> bool {
    let known = before.surface_info@.contains_key(id);
    let changed = !known || before.surface_info@[id].app_id@ != app_id@
        || before.surface_info@[id].title@ != title@;
    if before.windows@.contains_key(id) && changed && (app_id@.len() > 0 || title@.len() > 0) {
        &&& after == (Ewm { surface_info: after.surface_info, effects: after.effects, ..before })
        &&& after.surface_info@ == before.surface_info@.insert(id, SurfaceInfo { app_id, title })
        &&& after.effects@ == if before.emacs_surfaces@.contains_key(id) {
            before.effects@
        } else {
            before.effects@.push(Effect::Event(Event::Title { id, app: app_id, title }))
        }
    } else {
        after == before
    }
}

/// The first output that the lock surface covers.
pub open spec fn first_locked_by(s: Seq<(String, OutputState)>, surface: u64) -> Option<Seq<char>>
    decreases s.len(),
{
    if s.len() == 0 {
        None
    } else if first_locked_by(s.drop_last(), surface) is Some {
        first_locked_by(s.drop_last(), surface)
    } else if s.last().1.lock_surface == Some(surface) {
        Some(s.last().0@)
    } else {
        None
    }
}

/// Serial numbers wrap: `a` is not older than `b` if it comes at most half the range after it.
pub open spec fn no_older(a: u32, b: u32) -> bool {
    let distance = if a >= b {
        a - b
    } else {
        b - a
    };
    if distance < u32::MAX / 2 {
        b <= a
    } else {
        a <= b
    }
}

/// Whether an activation token is granted: the request names an input event, on a seat that is
/// there, not older than the keyboard's last entry into a surface.
pub fn token_created(serial: Option<u32>, seat_valid: bool, last_enter: Option<u32>) -> (r: bool)
    ensures
        r == (serial is Some && seat_valid && last_enter is Some && no_older(
            serial->0,
            last_enter->0,
        )),
{
    if !seat_valid {
        return false;
    }
    match (serial, last_enter) {
        (Some(s), Some(e)) => {
            let distance: u32 = if s >= e {
                s - e
            } else {
                e - s
            };
            if distance < u32::MAX / 2 {
                e <= s
            } else {
                s <= e
            }
        },
        _ => false,
    }
}

/// Whether a new selection is read for Emacs: on the clipboard, with some kind of text.
pub fn wants_selection(clipboard: bool, mime_types: &Vec<String>) -> (r: bool)
    ensures
        r == (clipboard && exists|i: int|
            0 <= i < mime_types@.len() && holds_text((#[trigger] mime_types@[i])@, "text"@)),
{
    if !clipboard {
        return false;
    }
    let mut i: usize = 0;
    while i < mime_types.len()
        invariant
            clipboard,
            i <= mime_types@.len(),
            forall|j: int| 0 <= j < i ==> !holds_text((#[trigger] mime_types@[j])@, "text"@),
        decreases mime_types@.len() - i,
    {
        if contains_str(mime_types[i].as_str(), "text") {
            assert(holds_text(mime_types@[i as int]@, "text"@));
            return true;
        }
        i = i + 1;
    }
    false
}

/// What Emacs is told once a client's selection was read: its text, unless it is empty or no
/// UTF-8.
pub fn selection_read(bytes: Vec<u8>) -> (r: Option<Event>)
    ensures
        match r {
            Some(e) => {
                &&& valid_utf8(bytes@)
                &&& decode_utf8(bytes@).len() > 0
                &&& e matches Event::SelectionChanged { text } && text@ == decode_utf8(bytes@)
            },
            None => !valid_utf8(bytes@) || decode_utf8(bytes@).len() == 0,
        },
{
    match text_from_bytes(bytes) {
        Some(text) => {
            if text.as_str().unicode_len() == 0 {
                None
            } else {
                Some(Event::SelectionChanged { text })
            }
        },
        None => None,
    }
}

/// Numbers are given out once: a new window's number is not that of any window before it, and the
/// next one is larger still. No window has the number zero.
pub proof fn law_surface_numbers_are_fresh(
    before: Ewm,
    after: Ewm,
    app: String,
    client_pid: Option<i32>,
    frame_output: Option<Seq<char>>,
    target: Option<String>,
    scale: Option<String>,
)
    requires
        before.wf(),
        before.next_surface_id < u64::MAX,
        window_added(before, after, app, client_pid, frame_output, target, scale),
    ensures
        before.next_surface_id != 0,
        !before.windows@.contains_key(before.next_surface_id),
        after.windows@.contains_key(before.next_surface_id),
        after.next_surface_id > before.next_surface_id,
        !after.windows@.contains_key(0),
{
}

/// A window that is gone is in no layout, no table and no cast.
pub proof fn law_dropped_window_leaves_no_trace(before: Ewm, after: Ewm, id: u64)
    requires
        after.wf(),
        window_dropped(before, after, id),
    ensures
        !after.windows@.contains_key(id),
        !after.surface_info@.contains_key(id),
        !after.emacs_surfaces@.contains_key(id),
        !after.window_cast_output@.contains_key(id),
        forall|session: u64| #[trigger]
            after.screen_casts@.contains_key(session) ==> after.screen_casts@[session]
                != (CastTarget::Window { id }),
        !after.layouts.surface_outputs.shown(id),
        forall|name: Seq<char>| !#[trigger] after.layouts.shows(id, name),
{
    assert forall|name: Seq<char>| !#[trigger] after.layouts.surface_outputs.has(id, name) by {
        if after.layouts.surface_outputs.has(id, name) {
            assert(after.layouts.surface_outputs@.contains((id, name)));
        }
    }
    assert forall|name: Seq<char>| !#[trigger] after.layouts.shows(id, name) by {
        assert(after.layouts.surface_outputs.has(id, name) <==> after.layouts.shows(id, name));
    }
    assert forall|session: u64| #[trigger]
        after.screen_casts@.contains_key(session) implies after.screen_casts@[session]
        != (CastTarget::Window { id }) by {
        let casts = before.screen_casts;
        let p = casts.position(session);
        assert(before.screen_casts@.contains_key(session));
        assert(casts.has(session));
        if casts.entries@[p].1 == (CastTarget::Window { id }) {
            lemma_sessions_of(casts.entries@, id, p);
        }
    }
}

/// A cast of the window is among those that are stopped.
proof fn lemma_sessions_of(casts: Seq<(u64, CastTarget)>, window: u64, i: int)
    requires
        0 <= i < casts.len(),
        casts[i].1 == (CastTarget::Window { id: window }),
    ensures
        sessions_of(casts, window).to_set().contains(casts[i].0),
    decreases casts.len(),
{
    let all = sessions_of(casts, window);
    let head = sessions_of(casts.drop_last(), window);
    if i == casts.len() - 1 {
        assert(all[all.len() - 1] == casts[i].0);
    } else {
        lemma_sessions_of(casts.drop_last(), window, i);
        let k = choose|k: int| 0 <= k < head.len() && head[k] == casts[i].0;
        assert(all[k] == head[k]);
    }
}

} // verus!
