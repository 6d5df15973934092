//! Screen casts, and what protocols are told of outputs and windows.
use crate::dbus::{CastTarget, OutputInfo as BusOutputInfo};
use crate::event::{OutputInfo, OutputMode};
use crate::ewm::casts::{
    bus_output, cast_output, cast_start, cast_window_place, first_entry_of, modifiers_for, plan_of,
    CastPlan,
};
use crate::ewm::reports::{
    described, mode_index, shows_output, shows_window, OutputHeadState, WindowInfo,
};
use crate::ewm::{Ewm, SurfaceInfo, WindowState};
use crate::geometry::Size;
use crate::layout::{slot, LayoutEntry};
use crate::pipewire::stream::{
    cast_size, completed, extra_delay, offers, offers_one, valid_modifiers, without_fd,
    without_number, Cast, CastSize, CastState, VideoFormat, VideoParams,
};
use vstd::prelude::*;

verus! {

/// A failed cast is stopped, and one that does not stream is passed over. A cast of an output gets
/// the frames of that output alone, once its format is agreed; a cast of a window gets those of the
/// output that shows the window's primary view.
pub proof fn law_casts_get_the_frames_of_their_target(e: Ewm, cast: Cast, output: Seq<char>)
    ensures
        cast.had_error <==> plan_of(e, cast, output) == CastPlan::Stop,
        !cast.had_error && !cast.is_active ==> plan_of(e, cast, output) == CastPlan::Skip,
        !cast.had_error && cast.is_active ==> match cast.target {
            CastTarget::Output { name } => {
                &&& name@ == output && e.space@.contains_key(output) && cast.state is Ready
                    ==> plan_of(e, cast, output) == CastPlan::Output
                &&& name@ != output || !e.space@.contains_key(output) || !(cast.state is Ready)
                    ==> plan_of(e, cast, output) == CastPlan::Skip
            },
            CastTarget::Window { id } => {
                &&& e.window_cast_output@.contains_key(id) && e.window_cast_output@[id]@ == output
                    ==> plan_of(e, cast, output) == CastPlan::Window(id)
                &&& !e.window_cast_output@.contains_key(id) || e.window_cast_output@[id]@ != output
                    ==> plan_of(e, cast, output) == CastPlan::Skip
            },
        },
{
}

/// A cast of an output starts with the size and rate that the first output of that name has on the
/// session bus, width as width and height as height.
pub proof fn law_output_casts_start_with_the_mode(e: Ewm, name: String, window_size: Size, i: int)
    ensures
        ({
            let r = cast_start(e, CastTarget::Output { name }, window_size);
            let s = e.dbus_outputs@;
            &&& 0 <= i < s.len() && s[i].name@ == name@ && (forall|j: int|
                0 <= j < i ==> (#[trigger] s[j]).name@ != name@) ==> {
                &&& r is Some
                &&& (r->0).0.w == s[i].width
                &&& (r->0).0.h == s[i].height
                &&& (r->0).1 == s[i].refresh
            }
            &&& (forall|j: int| 0 <= j < s.len() ==> (#[trigger] s[j]).name@ != name@) ==> r is None
        }),
{
    lemma_bus_output(e.dbus_outputs@, name@, i);
}

proof fn lemma_bus_output(s: Seq<BusOutputInfo>, name: Seq<char>, i: int)
    ensures
        0 <= i < s.len() && s[i].name@ == name && (forall|j: int|
            0 <= j < i ==> (#[trigger] s[j]).name@ != name) ==> bus_output(s, name) == Some(s[i]),
        (forall|j: int| 0 <= j < s.len() ==> (#[trigger] s[j]).name@ != name) ==> bus_output(
            s,
            name,
        ) is None,
    decreases s.len(),
{
    if s.len() > 0 {
        let head = s.drop_last();
        lemma_bus_output(head, name, i);
        let n = s.len() - 1;
        assert(s[n] == s.last());
        if forall|j: int| 0 <= j < n ==> (#[trigger] s[j]).name@ != name {
            assert forall|j: int| 0 <= j < head.len() implies (#[trigger] head[j]).name@
                != name by {
                assert(head[j] == s[j]);
            }
        }
        if 0 <= i < n {
            assert(head[i] == s[i]);
            if forall|j: int| 0 <= j < i ==> (#[trigger] s[j]).name@ != name {
                assert forall|j: int| 0 <= j < i implies (#[trigger] head[j]).name@ != name by {
                    assert(head[j] == s[j]);
                }
            }
        }
    }
}

/// A cast of a window starts with the window's size and the rate of the output that it is cast
/// from, or sixty frames a second where that is not known.
pub proof fn law_window_casts_start_with_the_window(e: Ewm, id: u64, window_size: Size)
    ensures
        ({
            let r = cast_start(e, CastTarget::Window { id }, window_size);
            &&& r is Some <==> e.windows@.contains_key(id)
            &&& r is Some ==> (r->0).0 == window_size
            &&& r is Some && !e.window_cast_output@.contains_key(id) ==> (r->0).1 == 60
            &&& r is Some && e.window_cast_output@.contains_key(id) && e.space@.contains_key(
                e.window_cast_output@[id]@,
            ) && e.space@[e.window_cast_output@[id]@].mode_size is Some
                && e.space@[e.window_cast_output@[id]@].refresh >= 0 ==> 1000 * (r->0).1
                <= e.space@[e.window_cast_output@[id]@].refresh < 1000 * (r->0).1 + 1000
        }),
{
}

/// A window is cast from where its first entry on the output stands: the output's place, the free
/// area's corner and the entry's place together.
pub proof fn law_cast_window_stands_at_its_entry(e: Ewm, output: Seq<char>, id: u64, i: int)
    requires
        e.space@.contains_key(output),
        e.layouts.outputs@.contains_key(output),
        0 <= i < e.layouts.outputs@[output]@.len(),
        e.layouts.outputs@[output]@[i].id == id,
        forall|j: int| 0 <= j < i ==> (#[trigger] e.layouts.outputs@[output]@[j]).id != id,
    ensures
        ({
            let r = cast_window_place(e, output, id);
            let m = e.space@[output];
            let v = e.layouts.outputs@[output]@[i];
            &&& r is Some
            &&& (r->0).0 == m.geo.loc.x + m.zone.loc.x + v.x
            &&& (r->0).1 == m.geo.loc.y + m.zone.loc.y + v.y
            &&& (r->0).2 == v
        }),
{
    lemma_first_entry_of(e.layouts.outputs@[output]@, id, i);
}

proof fn lemma_first_entry_of(s: Seq<LayoutEntry>, id: u64, i: int)
    requires
        0 <= i < s.len(),
        s[i].id == id,
        forall|j: int| 0 <= j < i ==> (#[trigger] s[j]).id != id,
    ensures
        first_entry_of(s, id) == Some(s[i]),
    decreases s.len(),
{
    let head = s.drop_last();
    if i < s.len() - 1 {
        assert(head[i] == s[i]);
        assert forall|j: int| 0 <= j < i implies (#[trigger] head[j]).id != id by {
            assert(head[j] == s[j]);
        }
        lemma_first_entry_of(head, id, i);
    } else {
        assert forall|j: int| 0 <= j < head.len() implies (#[trigger] head[j]).id != id by {
            assert(head[j] == s[j]);
        }
        lemma_no_entry_of(head, id);
    }
}

proof fn lemma_no_entry_of(s: Seq<LayoutEntry>, id: u64)
    requires
        forall|j: int| 0 <= j < s.len() ==> (#[trigger] s[j]).id != id,
    ensures
        first_entry_of(s, id) is None,
    decreases s.len(),
{
    if s.len() > 0 {
        let head = s.drop_last();
        assert forall|j: int| 0 <= j < head.len() implies (#[trigger] head[j]).id != id by {
            assert(head[j] == s[j]);
        }
        lemma_no_entry_of(head, id);
        assert(s[s.len() - 1].id != id);
    }
}

/// A cast offers the modifiers that the renderer has for its pixel format, each of them, and no
/// others.
pub proof fn law_casts_offer_what_the_renderer_has(formats: Seq<(u32, u64)>, code: u32, m: i64)
    ensures
        modifiers_for(formats, code).contains(m) <==> exists|i: int|
            0 <= i < formats.len() && (#[trigger] formats[i]).0 == code && formats[i].1 as i64 == m,
    decreases formats.len(),
{
    if formats.len() > 0 {
        let head = formats.drop_last();
        law_casts_offer_what_the_renderer_has(head, code, m);
        let a = modifiers_for(head, code);
        let b = modifiers_for(formats, code);
        assert(formats[formats.len() - 1] == formats.last());
        if a.contains(m) {
            let k = choose|k: int| 0 <= k < a.len() && a[k] == m;
            assert(b[k] == m);
            let i = choose|i: int|
                0 <= i < head.len() && (#[trigger] head[i]).0 == code && head[i].1 as i64 == m;
            assert(formats[i] == head[i]);
        }
        if exists|i: int|
            0 <= i < formats.len() && (#[trigger] formats[i]).0 == code && formats[i].1 as i64 == m {
            let i = choose|i: int|
                0 <= i < formats.len() && (#[trigger] formats[i]).0 == code && formats[i].1 as i64
                    == m;
            if i < head.len() {
                assert(head[i] == formats[i]);
                assert(a.contains(m));
            } else {
                assert(b[a.len() as int] == m);
            }
        }
        if b.contains(m) && !a.contains(m) {
            let k = choose|k: int| 0 <= k < b.len() && b[k] == m;
            assert(k == a.len());
        }
    }
}

/// A stream offers its size and rate as they are, transparency where it is asked for, the first
/// modifier by default, and leaves the choice open exactly where there is one.
pub proof fn law_streams_offer_what_they_have(
    p: VideoParams,
    size: CastSize,
    refresh: u32,
    modifiers: Seq<i64>,
    alpha: bool,
)
    requires
        offers(p, size, refresh, modifiers, alpha),
    ensures
        p.size.w == size.w && p.size.h == size.h,
        p.max_framerate == refresh,
        alpha <==> p.format == VideoFormat::Bgra,
        p.alternatives@ == modifiers,
        modifiers.len() > 0 ==> p.modifier == modifiers[0],
        p.dont_fixate <==> modifiers.len() >= 2,
{
}

/// A stream that has made its choice offers that alone.
pub proof fn law_chosen_modifier_is_offered_alone(
    p: VideoParams,
    size: CastSize,
    refresh: u32,
    modifier: u64,
    alpha: bool,
)
    requires
        offers_one(p, size, refresh, modifier, alpha),
    ensures
        p.size.w == size.w && p.size.h == size.h,
        p.max_framerate == refresh,
        alpha <==> p.format == VideoFormat::Bgra,
        p.alternatives@.len() == 0 && !p.dont_fixate,
        p.modifier == modifier as i64,
{
}

/// The size of a cast is that of what is cast, side for side.
pub proof fn law_cast_size(s: Size)
    requires
        s.w >= 0,
        s.h >= 0,
    ensures
        cast_size(s).w == s.w,
        cast_size(s).h == s.h,
{
}

/// The size that a stream has to agree on is the one that it is being resized to, or has.
pub proof fn law_expected_size(size: CastSize, modifier: u64, planes: i32)
    ensures
        (CastState::ResizePending { pending_size: size }).expected() == size,
        (CastState::ConfirmationPending { size, modifier, plane_count: planes }).expected() == size,
        (CastState::Ready { size, modifier, plane_count: planes, last_cursor: None }).expected()
            == size,
{
}

/// A frame waits exactly until the smallest distance from the one before it has passed; the first
/// frame, one that is late enough and one from before the last wait for nothing.
pub proof fn law_frames_wait_for_their_turn(last: nat, min: nat, target: nat)
    ensures
        last > 0 && last <= target && target < last + min ==> target + extra_delay(
            last,
            min,
            target,
        ) == last + min,
        last == 0 || target < last || target >= last + min ==> extra_delay(last, min, target) == 0,
{
}

/// Buffers are handed back up to the first one that is still drawn.
pub proof fn law_buffers_are_handed_back_in_order(reached: Seq<bool>)
    ensures
        completed(reached) <= reached.len(),
        forall|i: int| 0 <= i < completed(reached) ==> #[trigger] reached[i],
        completed(reached) < reached.len() ==> !reached[completed(reached) as int],
    decreases reached.len(),
{
    if reached.len() > 0 && reached[0] {
        let rest = reached.subrange(1, reached.len() as int);
        law_buffers_are_handed_back_in_order(rest);
        assert forall|i: int| 0 <= i < completed(reached) implies #[trigger] reached[i] by {
            if i > 0 {
                let q = i - 1;
                assert(rest[q]);
                assert(rest[q] == reached[q + 1]);
            }
        }
        if completed(reached) < reached.len() {
            let q = completed(rest) as int;
            assert(!rest[q]);
            assert(rest[q] == reached[q + 1]);
        }
    }
}

/// Buffers are made with the modifiers that stand for something, each of them.
pub proof fn law_invalid_modifiers_are_left_out(m: Seq<i64>, x: u64)
    ensures
        valid_modifiers(m).contains(x) <==> x != 0x00ff_ffff_ffff_ffff && exists|i: int|
            0 <= i < m.len() && #[trigger] m[i] as u64 == x,
    decreases m.len(),
{
    if m.len() > 0 {
        let head = m.drop_last();
        law_invalid_modifiers_are_left_out(head, x);
        let a = valid_modifiers(head);
        let b = valid_modifiers(m);
        assert(m[m.len() - 1] == m.last());
        if a.contains(x) {
            let k = choose|k: int| 0 <= k < a.len() && a[k] == x;
            assert(b[k] == x);
            let i = choose|i: int| 0 <= i < head.len() && #[trigger] head[i] as u64 == x;
            assert(m[i] as u64 == x);
        }
        if x != 0x00ff_ffff_ffff_ffff && exists|i: int| 0 <= i < m.len() && #[trigger] m[i] as u64 == x {
            let i = choose|i: int| 0 <= i < m.len() && #[trigger] m[i] as u64 == x;
            if i < head.len() {
                assert(head[i] as u64 == x);
                assert(a.contains(x));
            } else {
                assert(b[a.len() as int] == x);
            }
        }
        if b.contains(x) && !a.contains(x) {
            let k = choose|k: int| 0 <= k < b.len() && b[k] == x;
            assert(k == a.len());
        }
    }
}

/// Output managers see of an output what is known of it; its current mode is the first listed one
/// of the size and rate that it runs in, and it has a place exactly while it is mapped.
pub proof fn law_output_managers_see_the_output(
    head: OutputHeadState,
    info: OutputInfo,
    e: Ewm,
    i: usize,
)
    requires
        shows_output(head, info, e),
        info.modes@.len() <= usize::MAX,
    ensures
        head.name == info.name,
        head.modes@ == info.modes@,
        e.space@.contains_key(info.name@) ==> head.position == Some(
            (e.space@[info.name@].geo.loc.x, e.space@[info.name@].geo.loc.y),
        ),
        !e.space@.contains_key(info.name@) ==> head.position is None && head.current_mode is None,
        head.scale_120 == info.scale_120,
        0 <= info.transform <= 7 ==> head.transform.number() == info.transform,
        !e.output_config@.contains_key(info.name@) ==> head.enabled,
        e.output_config@.contains_key(info.name@) ==> head.enabled
            == e.output_config@[info.name@].enabled,
        !head.enabled ==> head.current_mode is None,
        ({
            let m = e.space@[info.name@];
            head.enabled && e.space@.contains_key(info.name@) && m.mode_size is Some && i
                < info.modes@.len() && info.modes@[i as int].width == m.mode_size->0.w
                && info.modes@[i as int].height == m.mode_size->0.h && info.modes@[i as int].refresh
                == m.refresh && (forall|j: int|
                0 <= j < i ==> !((#[trigger] info.modes@[j]).width == m.mode_size->0.w
                    && info.modes@[j].height == m.mode_size->0.h && info.modes@[j].refresh
                    == m.refresh)) ==> head.current_mode == Some(i)
        }),
{
    let m = e.space@[info.name@];
    if m.mode_size is Some && i < info.modes@.len() {
        lemma_mode_index(info.modes@, m.mode_size->0, m.refresh, i);
    }
}

proof fn lemma_mode_index(modes: Seq<OutputMode>, size: Size, refresh: i32, i: usize)
    requires
        modes.len() <= usize::MAX,
    ensures
        i < modes.len() && modes[i as int].width == size.w && modes[i as int].height == size.h
            && modes[i as int].refresh == refresh && (forall|j: int|
            0 <= j < i ==> !((#[trigger] modes[j]).width == size.w && modes[j].height == size.h
                && modes[j].refresh == refresh)) ==> mode_index(modes, size, refresh) == Some(i),
        (forall|j: int|
            0 <= j < modes.len() ==> !((#[trigger] modes[j]).width == size.w && modes[j].height
                == size.h && modes[j].refresh == refresh)) ==> mode_index(
            modes,
            size,
            refresh,
        ) is None,
    decreases modes.len(),
{
    if modes.len() > 0 {
        let head = modes.drop_last();
        lemma_mode_index(head, size, refresh, i);
        let n = modes.len() - 1;
        assert(modes[n] == modes.last());
        if forall|j: int|
            0 <= j < n ==> !((#[trigger] modes[j]).width == size.w && modes[j].height == size.h
                && modes[j].refresh == refresh) {
            assert forall|j: int| 0 <= j < head.len() implies !((#[trigger] head[j]).width
                == size.w && head[j].height == size.h && head[j].refresh == refresh) by {
                assert(head[j] == modes[j]);
            }
        }
        if i < n {
            assert(head[i as int] == modes[i as int]);
            if forall|j: int|
                0 <= j < i ==> !((#[trigger] modes[j]).width == size.w && modes[j].height == size.h
                    && modes[j].refresh == refresh) {
                assert forall|j: int| 0 <= j < i implies !((#[trigger] head[j]).width == size.w
                    && head[j].height == size.h && head[j].refresh == refresh) by {
                    assert(head[j] == modes[j]);
                }
            }
        }
    }
}

/// Taskbars see a window as focused exactly if it is the focused one, and as fullscreen exactly if
/// some view of it is.
pub proof fn law_taskbars_see_the_window(w: WindowInfo, id: u64, e: Ewm)
    requires
        shows_window(w, id, e),
    ensures
        w.id == id,
        w.is_focused <==> e.focused_surface_id == id,
        w.is_fullscreen <==> exists|o: int, j: int| #[trigger]
            slot(e.layouts.outputs.entries@, o, j) && e.layouts.outputs.entries@[o].1@[j].id == id
                && e.layouts.outputs.entries@[o].1@[j].fullscreen,
        w.app_id == e.surface_info@[id].app_id,
        e.surface_info@[id].title@.len() > 0 ==> w.title == Some(e.surface_info@[id].title),
        e.surface_info@[id].title@.len() == 0 ==> w.title is None,
{
}

/// The windows that taskbars see are those of which something is known.
pub proof fn law_described_windows(
    windows: Seq<(u64, WindowState)>,
    info: Map<u64, SurfaceInfo>,
    id: u64,
)
    ensures
        described(windows, info).contains(id) <==> info.contains_key(id) && exists|i: int|
            0 <= i < windows.len() && (#[trigger] windows[i]).0 == id,
    decreases windows.len(),
{
    if windows.len() > 0 {
        let head = windows.drop_last();
        law_described_windows(head, info, id);
        let a = described(head, info);
        let b = described(windows, info);
        assert(windows[windows.len() - 1] == windows.last());
        if a.contains(id) {
            let k = choose|k: int| 0 <= k < a.len() && a[k] == id;
            assert(b[k] == id);
            let i = choose|i: int| 0 <= i < head.len() && (#[trigger] head[i]).0 == id;
            assert(windows[i] == head[i]);
        }
        if info.contains_key(id) && exists|i: int|
            0 <= i < windows.len() && (#[trigger] windows[i]).0 == id {
            let i = choose|i: int| 0 <= i < windows.len() && (#[trigger] windows[i]).0 == id;
            if i < head.len() {
                assert(head[i] == windows[i]);
                assert(a.contains(id));
            } else {
                assert(b[a.len() as int] == id);
            }
        }
        if b.contains(id) && !a.contains(id) {
            let k = choose|k: int| 0 <= k < b.len() && b[k] == id;
            assert(k == a.len());
        }
    }
}

/// A cast is drawn with its own output, or with the one that its window is cast from.
pub proof fn law_casts_are_drawn_with_their_output(e: Ewm, name: String, id: u64)
    ensures
        cast_output(e, CastTarget::Output { name }) == Some(name@),
        e.window_cast_output@.contains_key(id) ==> cast_output(e, CastTarget::Window { id })
            == Some(e.window_cast_output@[id]@),
        !e.window_cast_output@.contains_key(id) ==> cast_output(
            e,
            CastTarget::Window { id },
        ) is None,
{
}

/// Taking a buffer out of a list leaves the others, in order.
pub proof fn law_other_buffers_stay(s: Seq<u64>, n: u64)
    ensures
        without_number(s, n) == s.filter(|x: u64| x != n),
    decreases s.len(),
{
    reveal(Seq::filter);
    if s.len() > 0 {
        law_other_buffers_stay(s.drop_last(), n);
    }
}

/// Taking a descriptor out of a list leaves the others, in order.
pub proof fn law_other_descriptors_stay(s: Seq<i64>, n: i64)
    ensures
        without_fd(s, n) == s.filter(|x: i64| x != n),
    decreases s.len(),
{
    reveal(Seq::filter);
    if s.len() > 0 {
        law_other_descriptors_stay(s.drop_last(), n);
    }
}

} // verus!
