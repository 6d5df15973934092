//! Outputs: their modes, their places, and what is known of them.
use crate::backend::connect::{
    mapped_at, mode_resolved, moved_to, output_connected, output_disabled, start_position,
    start_scale, start_transform, tells,
};
use crate::backend::drm::{
    apart, is_ccs, is_fastest, is_first_preferred, is_near, is_nearest, preferred_of, DrmMode,
};
use crate::backend::drm_state::ConnectorInfo;
use crate::dbus::{CastTarget, OutputInfo as BusOutputInfo};
use crate::effect::Effect;
use crate::event::{Event, OutputInfo};
use crate::ewm::outputs::{
    area_changed, area_checked, area_event, area_noted, bus_updated, config_changed, config_noted,
    config_told, frames_updated, infos_without, output_added, output_forgotten, output_removed,
    resize_effects, zone_set, CurrentOutput,
};
use crate::ewm::Ewm;
use crate::geometry::{Rect, Size};
use crate::layout::MappedOutput;
use crate::tables::NameMap;
use vstd::prelude::*;

verus! {

/// The mode that a request stands for has the size that was asked for. With a rate, it is within a
/// hertz of it and none of that size is nearer; without one, none of that size is faster. There is
/// none only if no mode of that size will do.
pub proof fn law_requested_mode_is_the_best(
    modes: Seq<DrmMode>,
    w: i32,
    h: i32,
    hz: Option<i32>,
    r: Option<DrmMode>,
    j: int,
)
    requires
        mode_resolved(modes, w, h, hz, r),
        0 <= j < modes.len(),
    ensures
        r is Some ==> r->0.width == w && r->0.height == h && modes.contains(r->0),
        r is Some && hz is Some ==> {
            let target = hz->0 * 1000;
            let d = if r->0.rate() >= target {
                r->0.rate() - target
            } else {
                target - r->0.rate()
            };
            let dj = if modes[j].rate() >= target {
                modes[j].rate() - target
            } else {
                target - modes[j].rate()
            };
            d < 1000 && (modes[j].width == w && modes[j].height == h ==> d <= dj)
        },
        r is Some && hz is None ==> (modes[j].width == w && modes[j].height == h
            ==> modes[j].rate() <= r->0.rate()),
        r is None && hz is None ==> modes[j].width != w || modes[j].height != h,
        r is None && hz is Some && modes[j].width == w && modes[j].height == h ==> modes[j].rate()
            >= hz->0 * 1000 + 1000 || modes[j].rate() <= hz->0 * 1000 - 1000,
{
    if r is Some {
        let i = if hz is Some {
            choose|i: int|
                #![trigger modes[i]]
                is_nearest(modes, w, h, hz->0, i) && r->0 == modes[i]
        } else {
            choose|i: int|
                #![trigger modes[i]]
                is_fastest(modes, w, h, i) && r->0 == modes[i]
        };
        assert(modes[i] == r->0);
        if hz is Some && modes[j].width == w && modes[j].height == h && !is_near(
            modes[j],
            w,
            h,
            hz->0,
        ) {
            assert(apart(modes[j].rate(), hz->0 * 1000) >= 1000);
        }
    } else if hz is Some {
        assert(!is_near(modes[j], w, h, hz->0));
    } else {
        assert(!modes[j].is_size(w, h));
    }
}

/// Without a request a display runs in the first mode that it prefers, else in its first.
pub proof fn law_preferred_mode(modes: Seq<DrmMode>, i: int)
    ensures
        0 <= i < modes.len() && modes[i].preferred && (forall|j: int|
            0 <= j < i ==> !(#[trigger] modes[j]).preferred) ==> preferred_of(modes) == Some(
            modes[i],
        ),
        modes.len() > 0 && (forall|j: int| 0 <= j < modes.len() ==> !(#[trigger] modes[j]).preferred)
            ==> preferred_of(modes) == Some(modes[0]),
        modes.len() == 0 ==> preferred_of(modes) is None,
{
    if 0 <= i < modes.len() && modes[i].preferred && (forall|j: int|
        0 <= j < i ==> !(#[trigger] modes[j]).preferred) {
        assert(is_first_preferred(modes, i));
        let k = choose|k: int| is_first_preferred(modes, k);
        assert(is_first_preferred(modes, k));
        assert(k == i);
    }
    if forall|j: int| 0 <= j < modes.len() ==> !(#[trigger] modes[j]).preferred {
        if exists|k: int| is_first_preferred(modes, k) {
            let k = choose|k: int| is_first_preferred(modes, k);
            assert(modes[k].preferred);
        }
    }
}

/// A mode's rate times its lines is the number of lines that its clock draws in a thousand seconds,
/// up to half a frame. Interlacing doubles the rate, double scan halves it.
pub proof fn law_rate_follows_the_timing(m: DrmMode)
    requires
        m.htotal > 0,
        m.vtotal > 0,
        m.vscan <= 1,
        !m.interlace,
        !m.dblscan,
    ensures
        ({
            let lines = m.clock as int * 1_000_000 / m.htotal as int;
            let twice = 2 * m.millihertz() * m.vtotal;
            2 * lines - m.vtotal <= twice <= 2 * lines + m.vtotal
        }),
        (DrmMode { interlace: true, ..m }).millihertz() == 2 * m.millihertz(),
        (DrmMode { dblscan: true, ..m }).millihertz() == m.millihertz() / 2,
        (DrmMode { interlace: true, dblscan: true, ..m }).millihertz() == m.millihertz(),
{
    let lines = m.clock as int * 1_000_000 / m.htotal as int;
    let v = m.vtotal as int;
    let q = m.millihertz();
    let a = lines + v / 2;
    assert(a == v * q + a % v && 0 <= a % v < v) by {
        vstd::arithmetic::div_mod::lemma_fundamental_div_mod(a, v);
        vstd::arithmetic::div_mod::lemma_mod_bound(a, v);
    }
    assert(2 * q * v == 2 * (v * q)) by (nonlinear_arith);
}

/// A refresh takes as long as the clock needs for the pixels of a frame, up to half a tick. Each
/// repetition of the lines makes it longer by as much.
pub proof fn law_interval_follows_the_timing(m: DrmMode)
    requires
        m.clock > 0,
        m.htotal > 0,
        m.vtotal > 0,
    ensures
        ({
            let pixels = m.htotal as int * m.vtotal as int;
            let doubled = if m.dblscan {
                2 * pixels
            } else {
                pixels
            };
            let scanned = if m.vscan > 1 {
                m.vscan * doubled
            } else {
                doubled
            };
            let clock = if m.interlace {
                2 * m.clock
            } else {
                m.clock as int
            };
            let twice = 2 * (m.interval_nanos() * clock);
            2 * (scanned * 1_000_000) - clock <= twice <= 2 * (scanned * 1_000_000) + clock
        }),
{
    let pixels = m.htotal as int * m.vtotal as int;
    let doubled = if m.dblscan {
        2 * pixels
    } else {
        pixels
    };
    let scanned = if m.vscan > 1 {
        m.vscan * doubled
    } else {
        doubled
    };
    let d = m.clock_rate();
    let w = m.frame_work();
    assert(w == scanned * 1_000_000) by {
        let base = pixels * 1_000_000;
        let b2 = if m.dblscan {
            base * 2
        } else {
            base
        };
        assert(b2 == doubled * 1_000_000);
        if m.vscan > 1 {
            assert(b2 * m.vscan == (m.vscan * doubled) * 1_000_000) by (nonlinear_arith)
                requires
                    b2 == doubled * 1_000_000,
            ;
        }
    }
    let a = w + d / 2;
    let q = a / d;
    assert(a == d * q + a % d && 0 <= a % d < d) by {
        vstd::arithmetic::div_mod::lemma_fundamental_div_mod(a, d);
        vstd::arithmetic::div_mod::lemma_mod_bound(a, d);
    }
    assert(q * d == d * q) by (nonlinear_arith);
}

/// The compressed tilings are these three modifiers and no other.
pub proof fn law_compressed_tilings(modifier: u64)
    ensures
        is_ccs(modifier) <==> modifier == 0x0100_0000_0000_0004 || modifier
            == 0x0100_0000_0000_0006 || modifier == 0x0100_0000_0000_0007,
{
}

/// A display that is connected gets a redraw state with a frame to draw, and a place unless its
/// configuration disables it: where the configuration says, else to the right of everything at
/// the top. Its extent and free area are its own.
pub proof fn law_connected_output_has_its_place(
    e0: Ewm,
    e1: Ewm,
    c: ConnectorInfo,
    mode: DrmMode,
    cur: CurrentOutput,
)
    requires
        e0.wf(),
        e1.wf(),
        output_connected(e0, e1, c, mode, cur),
    ensures
        ({
            let known = e0.output_config@.contains_key(c.name@);
            let conf = e0.output_config@[c.name@];
            let enabled = !known || conf.enabled;
            &&& e1.output_state@.contains_key(c.name@)
            &&& e1.output_state@[c.name@].redraw_state.is_due()
            &&& !enabled ==> e1.space == e0.space
            &&& enabled ==> {
                let m = e1.space@[c.name@];
                &&& e1.space@.contains_key(c.name@)
                &&& known && conf.position is Some ==> m.geo.loc.x == (conf.position->0).0
                    && m.geo.loc.y == (conf.position->0).1
                &&& !known || conf.position is None ==> m.geo.loc.x == e0.output_size.w
                    && m.geo.loc.y == 0
                &&& m.geo.size == cur.size && m.size == cur.size
                &&& m.zone == cur.zone
                &&& m.mode_size == Some(cur.mode_size)
                &&& m.refresh == cur.refresh
            }
        }),
{
    let at = start_position(e0, c.name@);
    let (a, b, info) = choose|a: Ewm, b: Ewm, info: OutputInfo|
        {
            &&& #[trigger] crate::backend::connect::state_made(
                e0,
                a,
                c.name,
                mode.interval_nanos() as nat,
                cur.size,
            )
            &&& #[trigger] crate::backend::connect::output_placed(a, b, c.name, mapped_at(at, cur))
            &&& tells(info, c, at, start_scale(e0, c.name@), start_transform(e0, c.name@))
            &&& #[trigger] output_added(b, e1, info, cur)
        };
    let st = choose|st: crate::redraw::OutputState|
        {
            &&& a.output_state.entries@ == #[trigger] e0.output_state.entries_with(c.name, st)
            &&& st.redraw_state == crate::redraw::RedrawState::Queued
        };
    NameMap::lemma_entries_with(e0.output_state, e1.output_state, c.name, st);
    if crate::backend::connect::config_of(a, c.name@).enabled {
        NameMap::lemma_entries_with(a.space, e1.space, c.name, mapped_at(at, cur));
    }
}

/// Emacs and the session bus are told of a connected display: its name, its make and model, its
/// place, scale and transform as configured, and its modes one for one.
pub proof fn law_connected_output_is_told(
    e0: Ewm,
    e1: Ewm,
    c: ConnectorInfo,
    mode: DrmMode,
    cur: CurrentOutput,
)
    requires
        e0.wf(),
        output_connected(e0, e1, c, mode, cur),
    ensures
        ({
            let known = e0.output_config@.contains_key(c.name@);
            let conf = e0.output_config@[c.name@];
            let n = e0.effects@.len() as int;
            &&& e1.effects@.len() == n + 2
            &&& e1.effects@[n] matches Effect::Event(Event::OutputDetected(info))
            &&& info.name == c.name
            &&& known && conf.position is Some ==> info.x == (conf.position->0).0 && info.y == (
            conf.position->0).1
            &&& !known || conf.position is None ==> info.x == e0.output_size.w && info.y == 0
            &&& known && conf.scale_120 is Some ==> info.scale_120 == conf.scale_120->0
            &&& !known || conf.scale_120 is None ==> info.scale_120 == 120
            &&& known && conf.transform is Some ==> info.transform == conf.transform->0.number()
            &&& !known || conf.transform is None ==> info.transform == 0
            &&& c.make is Some ==> info.make == c.make->0
            &&& c.model is Some ==> info.model == c.model->0
            &&& c.size_mm is Some ==> info.width_mm == (c.size_mm->0).0 as i32 && info.height_mm
                == (c.size_mm->0).1 as i32
            &&& info.modes@.len() == c.modes@.len()
            &&& forall|i: int|
                0 <= i < c.modes@.len() ==> (#[trigger] info.modes@[i]).width == c.modes@[i].width
                    && info.modes@[i].height == c.modes@[i].height && info.modes@[i].refresh
                    == c.modes@[i].rate() && info.modes@[i].preferred == c.modes@[i].preferred
            &&& e1.effects@[n + 1] == Effect::Event(
                Event::WorkingArea {
                    output: c.name,
                    x: cur.zone.loc.x,
                    y: cur.zone.loc.y,
                    width: cur.zone.size.w,
                    height: cur.zone.size.h,
                },
            )
            &&& e1.dbus_outputs@.len() == e0.dbus_outputs@.len() + 1
            &&& e1.dbus_outputs@.last().name == c.name
            &&& e1.dbus_outputs@.last().width == cur.mode_size.w
            &&& e1.dbus_outputs@.last().height == cur.mode_size.h
            &&& e1.dbus_outputs@.last().x == info.x
            &&& e1.dbus_outputs@.last().y == info.y
            &&& e1.outputs@.len() == e0.outputs@.len() + 1
        }),
{
    let at = start_position(e0, c.name@);
    let (a, b, info) = choose|a: Ewm, b: Ewm, info: OutputInfo|
        {
            &&& #[trigger] crate::backend::connect::state_made(
                e0,
                a,
                c.name,
                mode.interval_nanos() as nat,
                cur.size,
            )
            &&& #[trigger] crate::backend::connect::output_placed(a, b, c.name, mapped_at(at, cur))
            &&& tells(info, c, at, start_scale(e0, c.name@), start_transform(e0, c.name@))
            &&& #[trigger] output_added(b, e1, info, cur)
        };
    assert(a.effects == e0.effects && b.effects == e0.effects);
    assert(e1.effects@[e0.effects@.len() as int] == Effect::Event(Event::OutputDetected(info)));
}

/// A configuration moves an output exactly where it names a place, and else leaves it.
pub proof fn law_configured_outputs_move(m: MappedOutput, x: i32, y: i32)
    ensures
        moved_to(m, Some((x, y))).x == x && moved_to(m, Some((x, y))).y == y,
        moved_to(m, None) == m.geo.loc,
{
}

/// Disabling an output takes it off the global space, and no other.
pub proof fn law_disabled_output_is_gone(before: Ewm, after: Ewm, name: Seq<char>, other: Seq<char>)
    requires
        output_disabled(before, after, name),
        other != name,
    ensures
        !after.space@.contains_key(name),
        after.space@.contains_key(other) == before.space@.contains_key(other),
        before.space@.contains_key(other) ==> after.space@[other] == before.space@[other],
{
}

/// What is left of a list once an output is taken out of it: all the others, in order.
pub proof fn law_other_outputs_stay_listed(s: Seq<OutputInfo>, name: Seq<char>, i: int)
    requires
        0 <= i < s.len(),
        s[i].name@ != name,
    ensures
        infos_without(s, name).contains(s[i]),
        infos_without(s, name).len() <= s.len(),
    decreases s.len(),
{
    let head = infos_without(s.drop_last(), name);
    let all = infos_without(s, name);
    lemma_infos_shrink(s, name);
    if i < s.len() - 1 {
        assert(s.drop_last()[i] == s[i]);
        law_other_outputs_stay_listed(s.drop_last(), name, i);
        let k = choose|k: int| 0 <= k < head.len() && head[k] == s[i];
        assert(all[k] == s[i]);
    } else {
        assert(all[all.len() - 1] == s[i]);
    }
}

proof fn lemma_infos_shrink(s: Seq<OutputInfo>, name: Seq<char>)
    ensures
        infos_without(s, name).len() <= s.len(),
    decreases s.len(),
{
    if s.len() > 0 {
        lemma_infos_shrink(s.drop_last(), name);
    }
}

/// Removing an output leaves the places, layouts, tabs and free areas of the others, and Emacs is
/// told last which one went.
pub proof fn law_other_outputs_stay(before: Ewm, after: Ewm, name: String, other: Seq<char>)
    requires
        output_removed(before, after, name),
        other != name@,
    ensures
        after.space@.contains_key(other) == before.space@.contains_key(other),
        before.space@.contains_key(other) ==> after.space@[other] == before.space@[other],
        after.output_state@.contains_key(other) == before.output_state@.contains_key(other),
        after.layouts.outputs@.contains_key(other) == before.layouts.outputs@.contains_key(other),
        before.layouts.outputs@.contains_key(other) ==> after.layouts.outputs@[other]
            == before.layouts.outputs@[other],
        after.output_workspaces@.contains_key(other) == before.output_workspaces@.contains_key(
            other,
        ),
        after.working_areas@.contains_key(other) == before.working_areas@.contains_key(other),
        after.windows == before.windows,
        after.focused_surface_id == before.focused_surface_id,
        after.output_config == before.output_config,
        after.effects@.len() > before.effects@.len(),
        after.effects@.last() == Effect::Event(Event::OutputDisconnected { name }),
        after.effects@.contains(Effect::DropGammaControl { output: name }),
{
    let (a, b, c, d) = choose|a: Ewm, b: Ewm, c: Ewm, d: Ewm|
        {
            &&& #[trigger] crate::ewm::outputs::state_dropped(before, a, name@)
            &&& #[trigger] crate::ewm::lock::lock_checked(a, b)
            &&& c == (Ewm { effects: c.effects, ..b })
            &&& c.effects@ == b.effects@.push(Effect::DropGammaControl { output: name })
            &&& #[trigger] crate::ewm::outputs::casts_stopped(
                c,
                d,
                crate::ewm::outputs::sessions_on(c.screen_casts.entries@, name@),
            )
            &&& output_forgotten(d, after, name)
        };
    let n = b.effects@.len() as int;
    assert(c.effects@[n] == (Effect::DropGammaControl { output: name }));
    assert(d.effects@[n] == c.effects@[n]);
    assert(after.effects@[n] == d.effects@[n]);
}

/// Emacs is told of a new configuration last, with the mode, the place, the scale and the transform
/// that now hold; every output is redrawn, and the list that is kept for Emacs agrees.
pub proof fn law_new_configuration_is_told(
    before: Ewm,
    after: Ewm,
    name: String,
    cur: CurrentOutput,
    i: int,
)
    requires
        before.wf(),
        before.space@.contains_key(name@),
        config_changed(before, after, name, cur),
        0 <= i < before.outputs@.len(),
    ensures
        ({
            let at = before.space@[name@].geo.loc;
            let x = after.effects@.last();
            &&& x matches Effect::Event(
                Event::OutputConfigChanged {
                    name: told,
                    width,
                    height,
                    refresh,
                    x: px,
                    y: py,
                    scale_120,
                    transform,
                },
            )
            &&& told == name
            &&& width == cur.mode_size.w
            &&& height == cur.mode_size.h
            &&& refresh == cur.refresh
            &&& px == at.x
            &&& py == at.y
            &&& scale_120 == cur.scale_120
            &&& transform == cur.transform.number()
        }),
        after.outputs@.len() == before.outputs@.len(),
        before.outputs@[i].name@ != name@ ==> after.outputs@[i] == before.outputs@[i],
        before.outputs@[i].name@ == name@ ==> {
            let o = after.outputs@[i];
            &&& o.name == before.outputs@[i].name
            &&& o.x == before.space@[name@].geo.loc.x
            &&& o.y == before.space@[name@].geo.loc.y
            &&& o.scale_120 == cur.scale_120
            &&& o.transform == cur.transform.number()
            &&& o.modes@.len() == before.outputs@[i].modes@.len()
            &&& forall|k: int|
                0 <= k < o.modes@.len() ==> {
                    let m = #[trigger] o.modes@[k];
                    &&& m.width == before.outputs@[i].modes@[k].width
                    &&& m.height == before.outputs@[i].modes@[k].height
                    &&& m.refresh == before.outputs@[i].modes@[k].refresh
                    &&& m.preferred <==> m.width == cur.mode_size.w && m.height == cur.mode_size.h
                        && m.refresh == cur.refresh
                }
        },
{
    let (noted, checked) = choose|noted: Ewm, checked: Ewm|
        {
            &&& #[trigger] config_noted(before, noted, name, cur)
            &&& #[trigger] area_checked(noted, checked, name, cur.zone)
            &&& config_told(checked, after, name, cur)
        };
    lemma_place_kept(noted, checked, name, cur.zone);
    assert(noted.outputs == checked.outputs && checked.outputs == after.outputs);
    assert(if before.outputs@[i].name@ == name@ {
        crate::ewm::outputs::info_updated(
            before.outputs@[i],
            noted.outputs@[i],
            before.space@[name@].geo,
            cur,
        )
    } else {
        noted.outputs@[i] == before.outputs@[i]
    });
}

/// Checking the free area moves no output.
proof fn lemma_place_kept(before: Ewm, after: Ewm, name: String, zone: Rect)
    requires
        before.space.wf(),
        before.space@.contains_key(name@),
        area_checked(before, after, name, zone),
    ensures
        after.space@.contains_key(name@),
        after.space@[name@].geo == before.space@[name@].geo,
        after.space@[name@].zone == zone,
        after.outputs == before.outputs,
{
    let zoned = choose|zoned: Ewm| #[trigger]
        zone_set(before, zoned, name@, zone) && if before.working_areas@.contains_key(name@)
            && before.working_areas@[name@] == zone {
            after == zoned
        } else {
            area_changed(zoned, after, name, zone)
        };
    crate::outputs::lemma_same_names(before.space, zoned.space);
    let p = before.space.position(name@);
    before.space.lemma_entry(p);
    assert(zoned.space.entries@[p].1.zone == zone);
    assert(zoned.space@.contains_key(name@));
    assert(zoned.space@[name@] == zoned.space.entries@[p].1);
    if !(before.working_areas@.contains_key(name@) && before.working_areas@[name@] == zone) {
        let (noted, fitted) = choose|noted: Ewm, fitted: Ewm|
            {
                &&& #[trigger] area_noted(zoned, noted, name, zone)
                &&& #[trigger] frames_updated(noted, fitted, name@)
                &&& after == (Ewm { effects: after.effects, ..fitted })
                &&& after.effects@ == fitted.effects@.push(area_event(name, zone))
            };
        assert(noted.space == zoned.space && fitted.space == noted.space);
        assert(noted.outputs == zoned.outputs && fitted.outputs == noted.outputs);
    }
}

/// A free area that differs from the one told last is stored, used and told to Emacs, side for
/// side; one that does not is not told again.
pub proof fn law_free_area_is_told_when_it_changes(
    before: Ewm,
    after: Ewm,
    output: String,
    zone: Rect,
)
    requires
        before.wf(),
        after.wf(),
        before.space@.contains_key(output@),
        area_checked(before, after, output, zone),
    ensures
        after.space@[output@].zone == zone,
        after.space@[output@].geo == before.space@[output@].geo,
        after.working_areas@.contains_key(output@),
        after.working_areas@[output@] == zone,
        before.working_areas@.contains_key(output@) && before.working_areas@[output@] == zone
            ==> after.effects@ == before.effects@ && after.windows == before.windows,
        !(before.working_areas@.contains_key(output@) && before.working_areas@[output@] == zone)
            ==> {
            &&& after.effects@.len() > before.effects@.len()
            &&& after.effects@.last() == Effect::Event(
                Event::WorkingArea {
                    output,
                    x: zone.loc.x,
                    y: zone.loc.y,
                    width: zone.size.w,
                    height: zone.size.h,
                },
            )
            &&& after.active_outputs_dirty
        },
{
    lemma_place_kept(before, after, output, zone);
    let zoned = choose|zoned: Ewm| #[trigger]
        zone_set(before, zoned, output@, zone) && if before.working_areas@.contains_key(output@)
            && before.working_areas@[output@] == zone {
            after == zoned
        } else {
            area_changed(zoned, after, output, zone)
        };
    if !(before.working_areas@.contains_key(output@) && before.working_areas@[output@] == zone) {
        let (noted, fitted) = choose|noted: Ewm, fitted: Ewm|
            {
                &&& #[trigger] area_noted(zoned, noted, output, zone)
                &&& #[trigger] frames_updated(noted, fitted, output@)
                &&& after == (Ewm { effects: after.effects, ..fitted })
                &&& after.effects@ == fitted.effects@.push(area_event(output, zone))
            };
        NameMap::lemma_entries_with(before.working_areas, after.working_areas, output, zone);
    }
}

/// What the session bus shows of an output is its mode and its place; other outputs stay.
pub proof fn law_session_bus_shows_the_mode(
    s: Seq<BusOutputInfo>,
    name: Seq<char>,
    geo: Rect,
    cur: CurrentOutput,
    i: int,
)
    requires
        0 <= i < s.len(),
    ensures
        bus_updated(s, name, geo, cur).len() == s.len(),
        s[i].name@ != name ==> bus_updated(s, name, geo, cur)[i] == s[i],
        s[i].name@ == name ==> {
            let o = bus_updated(s, name, geo, cur)[i];
            &&& o.name == s[i].name
            &&& o.width == cur.mode_size.w && o.height == cur.mode_size.h
            &&& o.x == geo.loc.x && o.y == geo.loc.y
            &&& cur.refresh >= 0 ==> o.refresh == cur.refresh / 1000
        },
{
}

/// Every cast of an output is offered its new size and rate, and no other cast is.
pub proof fn law_casts_follow_the_mode(
    casts: Seq<(u64, CastTarget)>,
    output: Seq<char>,
    size: Size,
    refresh: u32,
    x: Effect,
)
    ensures
        resize_effects(casts, output, size, refresh).contains(x) <==> exists|p: int|
            0 <= p < casts.len() && ((#[trigger] casts[p]).1 matches CastTarget::Output { name }
                && name@ == output) && x == (Effect::ResizeCast {
                session: casts[p].0,
                size,
                refresh,
            }),
    decreases casts.len(),
{
    if casts.len() > 0 {
        let head = casts.drop_last();
        law_casts_follow_the_mode(head, output, size, refresh, x);
        let a = resize_effects(head, output, size, refresh);
        let b = resize_effects(casts, output, size, refresh);
        assert(casts[casts.len() - 1] == casts.last());
        if a.contains(x) {
            let k = choose|k: int| 0 <= k < a.len() && a[k] == x;
            assert(b[k] == x);
            let p = choose|p: int|
                0 <= p < head.len() && ((#[trigger] head[p]).1 matches CastTarget::Output { name }
                    && name@ == output) && x == (Effect::ResizeCast {
                    session: head[p].0,
                    size,
                    refresh,
                });
            assert(casts[p] == head[p]);
        }
        if exists|p: int|
            0 <= p < casts.len() && ((#[trigger] casts[p]).1 matches CastTarget::Output { name }
                && name@ == output) && x == (Effect::ResizeCast {
                session: casts[p].0,
                size,
                refresh,
            }) {
            let p = choose|p: int|
                0 <= p < casts.len() && ((#[trigger] casts[p]).1 matches CastTarget::Output { name }
                    && name@ == output) && x == (Effect::ResizeCast {
                    session: casts[p].0,
                    size,
                    refresh,
                });
            if p < head.len() {
                assert(casts[p] == head[p]);
                assert(a.contains(x));
            } else {
                assert(b[a.len() as int] == x);
            }
        }
        if b.contains(x) && !a.contains(x) {
            let k = choose|k: int| 0 <= k < b.len() && b[k] == x;
            assert(k == a.len());
        }
    }
}

/// A rate that fits is told as it is.
pub proof fn law_rates_that_fit(m: DrmMode)
    requires
        0 <= m.millihertz() <= i32::MAX,
    ensures
        m.rate() == m.millihertz(),
{
}

/// Lines that are scanned more than once lower the rate by as much.
pub proof fn law_repeated_lines(m: DrmMode, n: u16)
    requires
        m.vscan <= 1,
        n > 1,
    ensures
        (DrmMode { vscan: n, ..m }).millihertz() == m.millihertz() / n as int,
{
}

} // verus!
