//! Keys, buttons and motion once it is decided where they go.
use crate::effect::{Effect, FocusTarget};
use crate::event::Event;
use crate::ewm::focus::frame_on_focused_output;
use crate::ewm::input_events::{
    activity_told, fullscreen_focused, is_fullscreen_selected, layout_noticed, pointed_at,
    redirected, waiting_focus_set,
};
use crate::ewm::{focus_set, Ewm, KeyboardInteractivity};
use crate::layout::slot;
use crate::time::Duration;
use vstd::prelude::*;

verus! {

/// Setting the focus names the surface, asks for the keyboard to follow, and tells Emacs exactly
/// if asked to. It changes nothing else but the history.
pub proof fn law_focus_is_set(
    before: Ewm,
    after: Ewm,
    id: u64,
    notify: bool,
    source: Seq<char>,
    context: Option<Seq<char>>,
)
    requires
        focus_set(before, after, id, notify, source, context),
    ensures
        after.focused_surface_id == id,
        after.keyboard_focus_dirty,
        after.keyboard_focus == before.keyboard_focus,
        notify ==> after.effects@ == before.effects@.push(Effect::Event(Event::Focus { id })),
        !notify ==> after.effects@ == before.effects@,
        after.windows == before.windows,
        after.layouts == before.layouts,
        after.focus_history.events@.len() > 0,
        after.focus_history.events@.last().surface_id == id,
        after.focus_history.events@.last().source@ == source,
{
}

/// A click or a scroll on a window focuses it and tells Emacs. On a layer surface it does not touch
/// the focused window; the surface is the clicked one if it takes focus on demand. Elsewhere
/// nothing is the clicked one any more.
pub proof fn law_clicks_focus_what_is_under_them(
    before: Ewm,
    after: Ewm,
    layer: Option<u64>,
    window: Option<u64>,
    source: Seq<char>,
)
    requires
        pointed_at(before, after, layer, window, source),
    ensures
        layer is None && window is Some ==> after.focused_surface_id == window->0
            && after.keyboard_focus_dirty && after.effects@ == before.effects@.push(
            Effect::Event(Event::Focus { id: window->0 }),
        ),
        layer is Some || window is None ==> after.focused_surface_id == before.focused_surface_id
            && after.effects@ == before.effects@,
        layer is None ==> after.on_demand_layer is None,
        layer is Some && (exists|i: int|
            0 <= i < before.layers@.len() && (#[trigger] before.layers@[i]).surface == layer->0
                && before.layers@[i].interactivity == KeyboardInteractivity::OnDemand)
            ==> after.on_demand_layer == layer,
        layer is Some && (forall|i: int|
            0 <= i < before.layers@.len() && (#[trigger] before.layers@[i]).surface == layer->0
                ==> before.layers@[i].interactivity != KeyboardInteractivity::OnDemand)
            ==> after.on_demand_layer is None,
        after.on_demand_layer != before.on_demand_layer ==> after.keyboard_focus_dirty,
{
}

/// Before a key is looked at, a focus command that still waits is carried out if its window is
/// there.
pub proof fn law_waiting_focus_comes_before_keys(before: Ewm, after: Ewm, id: u64)
    requires
        waiting_focus_set(before, after, Some(id)),
    ensures
        before.windows@.contains_key(id) ==> after.focused_surface_id == id,
        !before.windows@.contains_key(id) ==> after == before,
        after.effects@ == before.effects@,
{
}

/// A fullscreen surface that is selected is the focused one once a key is looked at; without one
/// the focus stays.
pub proof fn law_fullscreen_surface_is_focused(
    before: Ewm,
    after: Ewm,
    fullscreen: Option<u64>,
    o: int,
    j: int,
)
    requires
        is_fullscreen_selected(before.layouts, fullscreen),
        fullscreen_focused(before, after, fullscreen),
    ensures
        fullscreen is Some ==> after.focused_surface_id == fullscreen->0,
        fullscreen is None ==> after == before,
        0 <= o < before.layouts.outputs.entries@.len() && 0 <= j
            < before.layouts.outputs.entries@[o].1@.len()
            && before.layouts.outputs.entries@[o].1@[j].focused
            && before.layouts.outputs.entries@[o].1@[j].fullscreen && (forall|p: int, k: int|
            #[trigger] slot(before.layouts.outputs.entries@, p, k)
                && before.layouts.outputs.entries@[p].1@[k].focused
                && before.layouts.outputs.entries@[p].1@[k].fullscreen ==> o < p || (o == p && j
                <= k)) ==> fullscreen == Some(before.layouts.outputs.entries@[o].1@[j].id),
        (forall|p: int, k: int| #[trigger]
            slot(before.layouts.outputs.entries@, p, k) ==> !(
            before.layouts.outputs.entries@[p].1@[k].focused
                && before.layouts.outputs.entries@[p].1@[k].fullscreen)) ==> fullscreen is None,
{
    let l = before.layouts;
    let outs = l.outputs.entries@;
    if 0 <= o < outs.len() && 0 <= j < outs[o].1@.len() && outs[o].1@[j].focused
        && outs[o].1@[j].fullscreen && (forall|p: int, k: int| #[trigger]
        slot(outs, p, k) && outs[p].1@[k].focused && outs[p].1@[k].fullscreen ==> o < p || (o == p
            && j <= k)) {
        assert(slot(outs, o, j));
        assert(l.is_fullscreen_focus(o, j));
        if fullscreen is Some {
            let (p, k) = choose|p: int, k: int|
                l.is_fullscreen_focus(p, k) && fullscreen->0 == l.outputs.entries@[p].1@[k].id;
            assert(slot(outs, p, k));
            assert(p == o && k == j);
        }
    }
    if fullscreen is Some {
        let (p, k) = choose|p: int, k: int|
            l.is_fullscreen_focus(p, k) && fullscreen->0 == l.outputs.entries@[p].1@[k].id;
        assert(slot(outs, p, k));
    }
}

/// A bound key goes to the Emacs frame that stands in for the focused output: it gets the keyboard
/// at once and then the key, in the first keyboard layout if another is in use, which comes back
/// afterwards. Without a frame nothing happens.
pub proof fn law_redirected_key_reaches_the_frame(
    before: Ewm,
    after: Ewm,
    keycode: u32,
    keysym: u32,
    id: u64,
)
    requires
        redirected(before, after, keycode, keysym),
    ensures
        frame_on_focused_output(before) is None ==> after == before,
        frame_on_focused_output(before) == Some(id) ==> after.focused_surface_id == id,
        frame_on_focused_output(before) == Some(id) && before.windows@.contains_key(id) ==> {
            let n = before.effects@.len() as int;
            &&& after.keyboard_focus == FocusTarget::Window(id)
            &&& after.effects@.len() == n + 2
            &&& after.effects@[n] == (Effect::SetKeyboardFocus { target: FocusTarget::Window(id) })
            &&& after.effects@[n + 1] matches Effect::ResendKey { base_layout, restore }
            &&& before.xkb_current_layout == 0 ==> !base_layout && restore is None
            &&& before.xkb_current_layout != 0 ==> restore == Some(before.xkb_current_layout)
                && base_layout == (before.xkb_layout_names@.len() > 0)
        },
{
}

/// A change of the keyboard layout is noted, and told to Emacs with the layout's name.
pub proof fn law_layout_changes_are_told(before: Ewm, after: Ewm, current: usize)
    requires
        layout_noticed(before, after, current),
    ensures
        after.xkb_current_layout == current,
        current == before.xkb_current_layout ==> after.effects@ == before.effects@,
        current != before.xkb_current_layout && before.xkb_layout_names@.len() == 0
            ==> after.effects@ == before.effects@,
        current != before.xkb_current_layout && current < before.xkb_layout_names@.len() ==> {
            &&& after.effects@.len() == before.effects@.len() + 1
            &&& after.effects@.last() matches Effect::Event(Event::LayoutSwitched { layout, index })
            &&& index == current
            &&& layout@ == before.xkb_layout_names@[current as int]@
        },
{
}

/// Input counts as activity at its time, wakes an idle session and is told to idle watchers first.
pub proof fn law_input_is_activity(before: Ewm, after: Ewm, now: Duration)
    requires
        activity_told(before, after, now),
    ensures
        after.idle_timeout.last_activity == now,
        !after.idle_timeout.is_idle,
        after.effects@.len() > before.effects@.len(),
        after.effects@[before.effects@.len() as int] == Effect::NotifyActivity,
        before.idle_timeout.is_idle ==> after.monitors_active,
        !before.idle_timeout.is_idle ==> after.effects@.len() == before.effects@.len() + 1,
        after.idle_timeout.timeout == before.idle_timeout.timeout,
{
}

} // verus!
