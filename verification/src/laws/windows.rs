//! Windows that come, change and go.
use crate::dbus::CastTarget;
use crate::effect::Effect;
use crate::event::Event;
use crate::ewm::focus::{name_view, preferred_output, surface_output};
use crate::ewm::outputs::{
    frames_fitted, frames_updated, sessions_of, sessions_on, stop_effects, whole_hertz,
};
use crate::ewm::windows::{
    content_noted, dead_dropped, dead_step, first_locked_by, info_checked, lock_content_noted,
    no_older, program_name, refocus_target, surface_redrawn, unmap_effects, window_added,
    window_destroyed, window_dropped,
};
use crate::ewm::{Ewm, WindowState};
use crate::geometry::{Point, Size};
use crate::layout::LayoutEntry;
use crate::redraw::OutputState;
use crate::text::trimmed;
use vstd::prelude::*;

verus! {

/// A new window gets the next number. It fills the free area of the output that Emacs announced
/// it for, standing in its corner, and the whole extent where it was not announced. An announced
/// one whose output is not there stands out of sight.
pub proof fn law_new_window_fills_its_output(
    before: Ewm,
    after: Ewm,
    app: String,
    client_pid: Option<i32>,
    frame_output: Option<Seq<char>>,
    target: Option<String>,
    scale: Option<String>,
)
    requires
        before.wf(),
        before.next_surface_id < u64::MAX,
        window_added(before, after, app, client_pid, frame_output, target, scale),
    ensures
        after.next_surface_id == before.next_surface_id + 1,
        after.windows@.contains_key(before.next_surface_id),
        ({
            let w = after.windows@[before.next_surface_id];
            &&& w.size is Some
            &&& w.maximized && !w.fullscreen
            &&& frame_output is None ==> w.at is None && w.size->0 == before.output_size
            &&& frame_output is Some ==> w.at is Some
            &&& frame_output is Some && before.space@.contains_key(frame_output->0) ==> {
                let m = before.space@[frame_output->0];
                &&& w.size->0.w == m.zone.size.w && w.size->0.h == m.zone.size.h
                &&& w.at->0.x == m.geo.loc.x + m.zone.loc.x
                &&& w.at->0.y == m.geo.loc.y + m.zone.loc.y
            }
            &&& frame_output is Some && !before.space@.contains_key(frame_output->0) ==> {
                &&& w.size->0 == before.output_size
                &&& w.at->0.x == -10000 && w.at->0.y == -10000
            }
        }),
        forall|id: u64|
            id != before.next_surface_id ==> #[trigger] after.windows@.contains_key(id)
                == before.windows@.contains_key(id) && (before.windows@.contains_key(id)
                ==> after.windows@[id] == before.windows@[id]),
{
    if frame_output is Some && before.space@.contains_key(frame_output->0) {
        let p = before.space.position(frame_output->0);
        before.space.lemma_entry(p);
        assert(crate::ewm::outputs::place_ok(before.space.entries@[p].1));
    }
}

/// Emacs is told last of a new window: its number, its program, its process and the output that it
/// goes to, which is the announced one, else the preferred one. The window counts as a frame of
/// Emacs exactly if it is of Emacs's process, and then as one of that output.
pub proof fn law_new_window_is_announced(
    before: Ewm,
    after: Ewm,
    app: String,
    client_pid: Option<i32>,
    frame_output: Option<Seq<char>>,
    target: Option<String>,
    scale: Option<String>,
)
    requires
        before.wf(),
        before.next_surface_id < u64::MAX,
        window_added(before, after, app, client_pid, frame_output, target, scale),
    ensures
        after.effects@.len() > before.effects@.len(),
        ({
            let x = after.effects@.last();
            &&& x matches Effect::Event(Event::New { id, app: program, output, pid })
            &&& id == before.next_surface_id
            &&& program == app
            &&& output == target
            &&& client_pid is Some ==> pid == client_pid->0
            &&& client_pid is None ==> pid == 0
        }),
        frame_output is Some ==> target is Some && target->0@ == frame_output->0,
        frame_output is None ==> name_view(target) == preferred_output(before),
        scale is Some && target is Some && before.space@.contains_key(target->0@) ==> scale->0@
            == target->0@,
        scale is Some ==> after.effects@.contains(
            Effect::SendScale { output: scale->0, id: before.next_surface_id },
        ) && after.effects@.contains(
            Effect::Enter { output: scale->0, id: before.next_surface_id },
        ),
        before.space.entries@.len() > 0 ==> scale is Some,
        after.surface_info@.contains_key(before.next_surface_id),
        after.surface_info@[before.next_surface_id].app_id == app,
        before.emacs_pid is Some && client_pid is Some && client_pid->0 == before.emacs_pid->0 as i32
            ==> after.emacs_surfaces@.contains_key(before.next_surface_id) && (target is Some
            ==> after.emacs_surfaces@[before.next_surface_id]@ == target->0@),
        before.emacs_pid is None || client_pid is None || client_pid->0 != before.emacs_pid->0 as i32
            ==> after.emacs_surfaces == before.emacs_surfaces,
{
    let n = before.effects@.len() as int;
    if scale is Some {
        assert(after.effects@[n + 1] == (Effect::SendScale {
            output: scale->0,
            id: before.next_surface_id,
        }));
        assert(after.effects@[n + 2] == (Effect::Enter {
            output: scale->0,
            id: before.next_surface_id,
        }));
    }
    if target is Some && before.space@.contains_key(target->0@) {
        let p = before.space.position(target->0@);
        before.space.lemma_entry(p);
    }
}

/// Dropping a window touches no other: other windows, their titles, their frames and their views
/// in every layout stay as they were, and casts of other windows and of outputs go on.
pub proof fn law_other_windows_stay(before: Ewm, after: Ewm, id: u64, other: u64, session: u64)
    requires
        before.wf(),
        after.wf(),
        window_dropped(before, after, id),
        other != id,
    ensures
        after.windows@.contains_key(other) == before.windows@.contains_key(other),
        before.windows@.contains_key(other) ==> after.windows@[other] == before.windows@[other],
        after.surface_info@.contains_key(other) == before.surface_info@.contains_key(other),
        before.surface_info@.contains_key(other) ==> after.surface_info@[other]
            == before.surface_info@[other],
        after.emacs_surfaces@.contains_key(other) == before.emacs_surfaces@.contains_key(other),
        before.emacs_surfaces@.contains_key(other) ==> after.emacs_surfaces@[other]
            == before.emacs_surfaces@[other],
        after.window_cast_output@.contains_key(other) == before.window_cast_output@.contains_key(
            other,
        ),
        forall|o: int|
            0 <= o < before.layouts.outputs.entries@.len() ==> (
            #[trigger] after.layouts.outputs.entries@[o]).1@
                == before.layouts.outputs.entries@[o].1@.filter(|e: LayoutEntry| e.id != id),
        before.screen_casts@.contains_key(session) && before.screen_casts@[session]
            != (CastTarget::Window { id }) ==> after.screen_casts@.contains_key(session)
            && after.screen_casts@[session] == before.screen_casts@[session],
        after.focused_surface_id == before.focused_surface_id,
        after.next_surface_id == before.next_surface_id,
        after.effects@.len() > before.effects@.len(),
        after.effects@[before.effects@.len() as int] == Effect::Event(Event::Close { id }),
{
    let casts = before.screen_casts;
    if casts@.contains_key(session) && casts@[session] != (CastTarget::Window { id }) {
        lemma_stopped(casts.entries@, id, session);
        if sessions_of(casts.entries@, id).to_set().contains(session) {
            let p = choose|p: int|
                0 <= p < casts.entries@.len() && (#[trigger] casts.entries@[p]).0 == session
                    && casts.entries@[p].1 == (CastTarget::Window { id });
            casts.lemma_entry(p);
        }
    }
    assert(after.effects@[before.effects@.len() as int] == Effect::Event(Event::Close { id }));
}

/// The sessions that show a window are those with a cast of it.
proof fn lemma_stopped(casts: Seq<(u64, CastTarget)>, window: u64, session: u64)
    ensures
        sessions_of(casts, window).contains(session) <==> exists|p: int|
            0 <= p < casts.len() && (#[trigger] casts[p]).0 == session && casts[p].1 == (
            CastTarget::Window { id: window }),
    decreases casts.len(),
{
    if casts.len() > 0 {
        let head = casts.drop_last();
        lemma_stopped(head, window, session);
        let a = sessions_of(head, window);
        let b = sessions_of(casts, window);
        assert(casts[casts.len() - 1] == casts.last());
        if exists|p: int|
            0 <= p < head.len() && (#[trigger] head[p]).0 == session && head[p].1 == (
            CastTarget::Window { id: window }) {
            let p = choose|p: int|
                0 <= p < head.len() && (#[trigger] head[p]).0 == session && head[p].1 == (
                CastTarget::Window { id: window });
            assert(casts[p] == head[p]);
        }
        if exists|p: int|
            0 <= p < casts.len() && (#[trigger] casts[p]).0 == session && casts[p].1 == (
            CastTarget::Window { id: window }) {
            let p = choose|p: int|
                0 <= p < casts.len() && (#[trigger] casts[p]).0 == session && casts[p].1 == (
                CastTarget::Window { id: window });
            if p < head.len() {
                assert(casts[p] == head[p]);
            }
        }
        if a.contains(session) {
            let k = choose|k: int| 0 <= k < a.len() && a[k] == session;
            assert(b[k] == session);
        }
        if b != a {
            assert(b[a.len() as int] == casts.last().0);
            if b.contains(session) && session != casts.last().0 {
                let k = choose|k: int| 0 <= k < b.len() && b[k] == session;
                assert(a[k] == session);
            }
        }
    }
}

/// The sessions that show an output are those with a cast of it, whoever casts windows.
pub proof fn law_casts_of_an_output(casts: Seq<(u64, CastTarget)>, output: Seq<char>, session: u64)
    ensures
        sessions_on(casts, output).contains(session) <==> exists|p: int|
            0 <= p < casts.len() && (#[trigger] casts[p]).0 == session && (casts[p].1 matches
                CastTarget::Output { name } && name@ == output),
    decreases casts.len(),
{
    if casts.len() > 0 {
        let head = casts.drop_last();
        law_casts_of_an_output(head, output, session);
        let a = sessions_on(head, output);
        let b = sessions_on(casts, output);
        assert(casts[casts.len() - 1] == casts.last());
        if a.contains(session) {
            let k = choose|k: int| 0 <= k < a.len() && a[k] == session;
            assert(b[k] == session);
            let p = choose|p: int|
                0 <= p < head.len() && (#[trigger] head[p]).0 == session && (head[p].1 matches
                    CastTarget::Output { name } && name@ == output);
            assert(casts[p] == head[p]);
        }
        if exists|p: int|
            0 <= p < casts.len() && (#[trigger] casts[p]).0 == session && (casts[p].1 matches
                CastTarget::Output { name } && name@ == output) {
            let p = choose|p: int|
                0 <= p < casts.len() && (#[trigger] casts[p]).0 == session && (casts[p].1 matches
                    CastTarget::Output { name } && name@ == output);
            if p < head.len() {
                assert(casts[p] == head[p]);
                assert(a.contains(session));
            } else {
                assert(b[a.len() as int] == session);
            }
        }
        if b.contains(session) && !a.contains(session) {
            let k = choose|k: int| 0 <= k < b.len() && b[k] == session;
            assert(k == a.len());
        }
    }
}

/// When a focused window goes, the first Emacs frame on its output is next, else the first surface
/// of all.
pub proof fn law_focus_moves_to_a_frame_nearby(before: Ewm, after: Ewm, id: u64, i: int)
    ensures
        surface_output(before, id) is Some && 0 <= i < after.emacs_surfaces.entries@.len()
            && after.emacs_surfaces.entries@[i].1@ == surface_output(before, id)->0 && (forall|
            j: int,
        |
            0 <= j < i ==> (#[trigger] after.emacs_surfaces.entries@[j]).1@ != surface_output(
                before,
                id,
            )->0) ==> refocus_target(before, after, id) == after.emacs_surfaces.entries@[i].0,
        surface_output(before, id) is None || (forall|j: int|
            0 <= j < after.emacs_surfaces.entries@.len() ==> (
            #[trigger] after.emacs_surfaces.entries@[j]).1@ != surface_output(before, id)->0)
            ==> refocus_target(before, after, id) == 1,
{
    if surface_output(before, id) is Some {
        super::focus::lemma_frame_for(
            after.emacs_surfaces.entries@,
            surface_output(before, id)->0,
            i,
        );
    }
}

/// A window that stood in the global space is taken out of it when it is destroyed, and only then.
pub proof fn law_destroyed_frames_are_unmapped(before: Ewm, after: Ewm, id: u64)
    requires
        window_destroyed(before, after, id),
    ensures
        !after.windows@.contains_key(id),
        before.windows@[id].at is Some ==> after.effects@.last() == (Effect::UnmapFrame { id }),
        before.windows@[id].at is None ==> !(after.effects@.last() is UnmapFrame),
{
    let dropped = choose|dropped: Ewm|
        {
            &&& #[trigger] window_dropped(before, dropped, id)
            &&& after == (Ewm { effects: after.effects, ..dropped })
            &&& after.effects@ == if before.windows@[id].at is Some {
                dropped.effects@.push(Effect::UnmapFrame { id })
            } else {
                dropped.effects@
            }
        };
    let stops = stop_effects(sessions_of(before.screen_casts.entries@, id));
    let n = dropped.effects@.len() - 1;
    if stops.len() > 0 {
        assert(dropped.effects@[n] == stops[stops.len() - 1]);
    } else {
        assert(dropped.effects@[n] == Effect::Event(Event::Close { id }));
    }
}

/// A new app id or title is stored and told to Emacs, unless both are empty or the window is one
/// of Emacs's own; one that is not new, or of no window, changes nothing.
pub proof fn law_titles_are_told_when_they_change(
    before: Ewm,
    after: Ewm,
    id: u64,
    app_id: String,
    title: String,
)
    requires
        info_checked(before, after, id, app_id, title),
    ensures
        !before.windows@.contains_key(id) ==> after == before,
        app_id@.len() == 0 && title@.len() == 0 ==> after == before,
        before.surface_info@.contains_key(id) && before.surface_info@[id].app_id@ == app_id@
            && before.surface_info@[id].title@ == title@ ==> after == before,
        before.windows@.contains_key(id) && (app_id@.len() > 0 || title@.len() > 0) && (
        !before.surface_info@.contains_key(id) || before.surface_info@[id].app_id@ != app_id@
            || before.surface_info@[id].title@ != title@) ==> {
            &&& after.surface_info@.contains_key(id)
            &&& after.surface_info@[id].app_id == app_id
            &&& after.surface_info@[id].title == title
            &&& before.emacs_surfaces@.contains_key(id) ==> after.effects@ == before.effects@
            &&& !before.emacs_surfaces@.contains_key(id) ==> after.effects@
                == before.effects@.push(Effect::Event(Event::Title { id, app: app_id, title }))
        },
{
}

/// New content of a surface is drawn where it is shown: on the mapped outputs whose layouts list
/// it; for a frame that no layout lists, on its own output; for one that is neither, everywhere.
/// Other outputs are left alone.
pub proof fn law_content_is_drawn_where_it_is_shown(before: Ewm, after: Ewm, id: u64, i: int)
    requires
        before.wf(),
        surface_redrawn(before, after, id),
        0 <= i < before.output_state.entries@.len(),
    ensures
        ({
            let n = before.output_state.entries@[i].0@;
            let by_layout = exists|m: Seq<char>| listed(before, id, m);
            let frame = before.emacs_surfaces@.contains_key(id);
            let wanted = if by_layout {
                listed(before, id, n) && before.space@.contains_key(n)
            } else if frame {
                before.emacs_surfaces@[id]@ == n && before.space@.contains_key(n)
            } else {
                true
            };
            &&& after.output_state.entries@[i].0 == before.output_state.entries@[i].0
            &&& wanted ==> after.output_state.entries@[i].1.redraw_state.is_pending()
            &&& !wanted ==> after.output_state.entries@[i] == before.output_state.entries@[i]
        }),
{
    let n = before.output_state.entries@[i].0@;
    crate::redraw::law_request_is_idempotent(before.output_state.entries@[i].1.redraw_state);
    assert forall|m: Seq<char>| #[trigger]
        before.layouts.surface_outputs.has(id, m) == listed(before, id, m) by {
        assert(before.layouts.surface_outputs.has(id, m) <==> before.layouts.shows(id, m));
    }
    if exists|m: Seq<char>| listed(before, id, m) {
        let m = choose|m: Seq<char>| listed(before, id, m);
        assert(before.layouts.surface_outputs.has(id, m));
        assert(before.layouts.surface_outputs.shown(id));
    } else if before.layouts.surface_outputs.shown(id) {
        let m = choose|m: Seq<char>| before.layouts.surface_outputs.has(id, m);
        assert(listed(before, id, m));
    }
    assert(before.layouts.surface_outputs.has(id, n) == listed(before, id, n));
    assert(before.layouts.shows(id, n) == listed(before, id, n));
}

/// The layout of the output has an entry of the surface.
pub open spec fn listed(e: Ewm, id: u64, output: Seq<char>) -> bool {
    e.layouts.outputs@.contains_key(output) && exists|j: int|
        0 <= j < e.layouts.outputs@[output]@.len() && #[trigger] e.layouts.outputs@[output]@[j].id
            == id
}

/// Content of a lock surface is drawn on the first output that the surface covers, while the
/// session is locked; an unlocked session does not care for it.
pub proof fn law_lock_content_is_drawn(before: Ewm, after: Ewm, surface: u64, i: int)
    requires
        before.wf(),
        lock_content_noted(before, after, surface),
        0 <= i < before.output_state.entries@.len(),
    ensures
        before.lock_state is Unlocked ==> after.output_state.entries@
            == before.output_state.entries@,
        !(before.lock_state is Unlocked) && before.output_state.entries@[i].1.lock_surface == Some(
            surface,
        ) && (forall|j: int|
            0 <= j < i ==> (#[trigger] before.output_state.entries@[j]).1.lock_surface != Some(
                surface,
            )) ==> after.output_state.entries@[i].1.redraw_state.is_pending(),
        before.output_state.entries@[i].1.lock_surface != Some(surface)
            ==> after.output_state.entries@[i] == before.output_state.entries@[i],
{
    let s = before.output_state.entries@;
    lemma_first_locked(s, surface);
    crate::redraw::law_request_is_idempotent(s[i].1.redraw_state);
    if first_locked_by(s, surface) is Some {
        let k = choose|k: int|
            0 <= k < s.len() && (#[trigger] s[k]).1.lock_surface == Some(surface) && s[k].0@
                == first_locked_by(s, surface)->0 && forall|j: int|
                0 <= j < k ==> (#[trigger] s[j]).1.lock_surface != Some(surface);
        before.output_state.lemma_entry(k);
        before.output_state.lemma_entry(i);
        if s[i].0@ == s[k].0@ {
            assert(i == k);
        }
    }
}

proof fn lemma_first_locked(s: Seq<(String, OutputState)>, surface: u64)
    ensures
        match first_locked_by(s, surface) {
            Some(n) => exists|k: int|
                0 <= k < s.len() && (#[trigger] s[k]).1.lock_surface == Some(surface) && s[k].0@
                    == n && forall|j: int|
                    0 <= j < k ==> (#[trigger] s[j]).1.lock_surface != Some(surface),
            None => forall|j: int|
                0 <= j < s.len() ==> (#[trigger] s[j]).1.lock_surface != Some(surface),
        },
    decreases s.len(),
{
    if s.len() > 0 {
        let head = s.drop_last();
        lemma_first_locked(head, surface);
        assert(s[s.len() - 1] == s.last());
        if first_locked_by(head, surface) is Some {
            let k = choose|k: int|
                0 <= k < head.len() && (#[trigger] head[k]).1.lock_surface == Some(surface)
                    && head[k].0@ == first_locked_by(head, surface)->0 && forall|j: int|
                    0 <= j < k ==> (#[trigger] head[j]).1.lock_surface != Some(surface);
            assert(s[k] == head[k]);
            assert forall|j: int| 0 <= j < k implies (#[trigger] s[j]).1.lock_surface != Some(
                surface,
            ) by {
                assert(head[j] == s[j]);
            }
        } else {
            assert forall|j: int| 0 <= j < s.len() - 1 implies (#[trigger] s[j]).1.lock_surface
                != Some(surface) by {
                assert(head[j] == s[j]);
            }
        }
    }
}

/// A serial number is not older than those that came shortly before it, across the wrap too, and of
/// two different ones that are less than half the range apart one is older.
pub proof fn law_serial_numbers_wrap(a: u32, step: u32)
    requires
        step < 0x7fff_ffff,
    ensures
        no_older(a.wrapping_add(step), a),
        step > 0 ==> !no_older(a, a.wrapping_add(step)),
{
}

/// A window is named by what it says, else by its process without white space around, else it is
/// unknown.
pub proof fn law_programs_are_named(app_id: Option<Seq<char>>, comm: Option<Seq<char>>)
    ensures
        app_id is Some ==> program_name(app_id, comm) == app_id->0,
        app_id is None && comm is Some ==> program_name(app_id, comm) == trimmed(comm->0),
        app_id is None && comm is None ==> program_name(app_id, comm) == "unknown"@,
{
}

/// The frames that were made for an output stand in the corner of its free area and fill it; other
/// windows are left alone, and the output is redrawn.
pub proof fn law_frames_fill_the_free_area(before: Ewm, after: Ewm, output: Seq<char>, id: u64)
    requires
        before.wf(),
        frames_updated(before, after, output),
        before.space@.contains_key(output),
        before.windows@.contains_key(id),
    ensures
        after.windows@.contains_key(id),
        before.emacs_surfaces@.contains_key(id) && before.emacs_surfaces@[id]@ == output ==> {
            let m = before.space@[output];
            let w = after.windows@[id];
            &&& w.at is Some && w.size is Some
            &&& w.at->0.x == m.geo.loc.x + m.zone.loc.x && w.at->0.y == m.geo.loc.y + m.zone.loc.y
            &&& w.size->0.w == m.zone.size.w && w.size->0.h == m.zone.size.h
            &&& w.fullscreen == before.windows@[id].fullscreen
            &&& w.maximized == before.windows@[id].maximized
        },
        !(before.emacs_surfaces@.contains_key(id) && before.emacs_surfaces@[id]@ == output)
            ==> after.windows@[id] == before.windows@[id],
{
    let m = before.space@[output];
    let p = before.space.position(output);
    before.space.lemma_entry(p);
    assert(crate::ewm::outputs::place_ok(before.space.entries@[p].1));
    let q = before.windows.position(id);
    before.windows.lemma_entry(q);
    assert forall|i: int, j: int|
        0 <= i < j < before.windows.entries@.len() implies before.windows.entries@[i].0
        != before.windows.entries@[j].0 by {}
    lemma_fitted(
        before.windows@,
        before.windows.entries@,
        before.emacs_surfaces@,
        output,
        crate::ewm::outputs::zone_corner(m),
        m.zone.size,
        q,
    );
}

proof fn lemma_fitted(
    windows: Map<u64, WindowState>,
    order: Seq<(u64, WindowState)>,
    frames: Map<u64, String>,
    output: Seq<char>,
    at: Point,
    size: Size,
    q: int,
)
    requires
        forall|i: int, j: int| 0 <= i < j < order.len() ==> order[i].0 != order[j].0,
    ensures
        ({
            let r = frames_fitted(windows, order, frames, output, at, size);
            &&& 0 <= q < order.len() ==> {
                let (id, w) = order[q];
                &&& windows.contains_key(id) ==> r.contains_key(id)
                &&& frames.contains_key(id) && frames[id]@ == output ==> r[id] == (WindowState {
                    at: Some(at),
                    size: Some(size),
                    ..w
                })
                &&& !(frames.contains_key(id) && frames[id]@ == output) ==> r[id] == windows[id]
            }
            &&& forall|id: u64|
                (forall|j: int| 0 <= j < order.len() ==> (#[trigger] order[j]).0 != id)
                    ==> #[trigger] r[id] == windows[id] && r.contains_key(id)
                    == windows.contains_key(id)
        }),
    decreases order.len(),
{
    if order.len() > 0 {
        let head = order.drop_last();
        assert forall|i: int, j: int| 0 <= i < j < head.len() implies head[i].0 != head[j].0 by {
            assert(order[i].0 != order[j].0);
        }
        lemma_fitted(windows, head, frames, output, at, size, q);
        let r = frames_fitted(windows, order, frames, output, at, size);
        let h = frames_fitted(windows, head, frames, output, at, size);
        let last = order.len() - 1;
        assert(order[last] == order.last());
        if 0 <= q < last {
            assert(head[q] == order[q]);
            assert(order[q].0 != order[last].0);
        } else if q == last {
            let id = order[q].0;
            assert forall|j: int| 0 <= j < head.len() implies (#[trigger] head[j]).0 != id by {
                assert(order[j].0 != order[last].0);
            }
            assert(h[id] == windows[id]);
        }
        assert forall|id: u64|
            (forall|j: int| 0 <= j < order.len() ==> (#[trigger] order[j]).0 != id) implies
            #[trigger] r[id] == windows[id] && r.contains_key(id) == windows.contains_key(id) by {
            assert forall|j: int| 0 <= j < head.len() implies (#[trigger] head[j]).0 != id by {
                assert(order[j].0 != id);
            }
            assert(h[id] == windows[id]);
            assert(order[last].0 != id);
        }
    }
}

/// A rate in millihertz is told in whole hertz, rounded down.
pub proof fn law_rates_in_whole_hertz(refresh: i32)
    requires
        refresh >= 0,
    ensures
        1000 * whole_hertz(refresh) <= refresh < 1000 * whole_hertz(refresh) + 1000,
{
}

/// Cleaning up after dead clients drops each of their windows and leaves the others.
pub proof fn law_dead_windows_are_dropped(before: Ewm, after: Ewm, ids: Seq<u64>, id: u64)
    requires
        dead_dropped(before, after, ids),
    ensures
        after.windows@.contains_key(id) <==> before.windows@.contains_key(id) && !ids.contains(id),
        before.windows@.contains_key(id) && !ids.contains(id) ==> after.windows@[id]
            == before.windows@[id],
    decreases ids.len(),
{
    if ids.len() > 0 {
        let head = ids.drop_last();
        let mid = choose|mid: Ewm|
            dead_dropped(before, mid, head) && #[trigger] dead_step(mid, after, ids.last());
        law_dead_windows_are_dropped(before, mid, head, id);
        assert(ids[ids.len() - 1] == ids.last());
        if head.contains(id) {
            let k = choose|k: int| 0 <= k < head.len() && head[k] == id;
            assert(ids[k] == id);
        }
        if ids.contains(id) && id != ids.last() {
            let k = choose|k: int| 0 <= k < ids.len() && ids[k] == id;
            assert(head[k] == id);
        }
    }
}

/// Frames of dead clients that stood in the global space are taken out of it, and nothing else is.
pub proof fn law_dead_frames_are_unmapped(
    windows: Map<u64, WindowState>,
    ids: Seq<u64>,
    x: Effect,
)
    ensures
        unmap_effects(windows, ids).contains(x) <==> (x matches Effect::UnmapFrame { id }
            && ids.contains(id) && windows.contains_key(id) && windows[id].at is Some),
    decreases ids.len(),
{
    if ids.len() > 0 {
        let head = ids.drop_last();
        law_dead_frames_are_unmapped(windows, head, x);
        let a = unmap_effects(windows, head);
        let b = unmap_effects(windows, ids);
        assert(ids[ids.len() - 1] == ids.last());
        if a.contains(x) {
            let k = choose|k: int| 0 <= k < a.len() && a[k] == x;
            assert(b[k] == x);
        }
        match x {
            Effect::UnmapFrame { id } => {
                if head.contains(id) {
                    let k = choose|k: int| 0 <= k < head.len() && head[k] == id;
                    assert(ids[k] == id);
                }
                if ids.contains(id) && id != ids.last() {
                    let k = choose|k: int| 0 <= k < ids.len() && ids[k] == id;
                    assert(head[k] == id);
                }
            },
            _ => {},
        }
        if b != a {
            assert(b[a.len() as int] == (Effect::UnmapFrame { id: ids.last() }));
        }
        if b.contains(x) && !a.contains(x) {
            let k = choose|k: int| 0 <= k < b.len() && b[k] == x;
            assert(k == a.len());
        }
    }
}

/// New content of a window is drawn; its title and app id are looked at exactly if the window's own
/// surface brought it.
pub proof fn law_window_content(
    before: Ewm,
    after: Ewm,
    id: u64,
    root: bool,
    app_id: String,
    title: String,
)
    requires
        content_noted(before, after, id, root, app_id, title),
    ensures
        !root ==> after.surface_info == before.surface_info && after.effects == before.effects,
        root && before.windows@.contains_key(id) && (app_id@.len() > 0 || title@.len() > 0)
            ==> after.surface_info@.contains_key(id) && after.surface_info@[id].app_id@ == app_id@
            && after.surface_info@[id].title@ == title@,
        after.windows == before.windows,
        after.focused_surface_id == before.focused_surface_id,
{
}

} // verus!
