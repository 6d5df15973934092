//! Tables of outputs: their desired configuration and their redraw state.
use crate::backend::Transform;
use crate::geometry::{Point, Size};
use crate::layout::MappedOutput;
use crate::redraw::{LockRenderState, OutputState};
use crate::tables::NameMap;
use crate::text::str_eq;
use vstd::prelude::*;

verus! {

/// Desired output configuration (from Emacs).
/// Stored per output name; looked up on connect and config changes.
#[derive(Clone, Copy, Debug, PartialEq, Eq)]
pub struct OutputConfig {
    /// Desired video mode: width, height and refresh rate in hertz (None = use preferred/auto)
    pub mode: Option<(i32, i32, Option<i32>)>,
    /// Desired position (None = auto horizontal layout)
    pub position: Option<(i32, i32)>,
    /// Desired scale in 120ths (None = 1.0)
    pub scale_120: Option<u32>,
    /// Desired transform (None = Normal)
    pub transform: Option<Transform>,
    /// Whether output is enabled (default true)
    pub enabled: bool,
}

/// The configuration of an output that nothing was said about.
pub open spec fn default_config() -> OutputConfig {
    OutputConfig { mode: None, position: None, scale_120: None, transform: None, enabled: true }
}

impl Default for OutputConfig {
    fn default() -> (r: Self)
        ensures
            r == default_config(),
    {
        OutputConfig { mode: None, position: None, scale_120: None, transform: None, enabled: true }
    }
}

/// The state with a redraw requested.
pub open spec fn with_request(s: OutputState) -> OutputState {
    OutputState { redraw_state: s.redraw_state.requested(), ..s }
}

/// All outputs with a redraw requested.
pub open spec fn all_requested(s: Seq<(String, OutputState)>) -> Seq<(String, OutputState)> {
    s.map_values(|e: (String, OutputState)| (e.0, with_request(e.1)))
}

/// The output `name` with a redraw requested.
pub open spec fn one_requested(s: Seq<(String, OutputState)>, name: Seq<char>) -> Seq<
    (String, OutputState),
> {
    s.map_values(
        |e: (String, OutputState)|
            if e.0@ == name {
                (e.0, with_request(e.1))
            } else {
                e
            },
    )
}

/// All outputs with lock surfaces and locked frames forgotten.
pub open spec fn all_unlocked(s: Seq<(String, OutputState)>) -> Seq<(String, OutputState)> {
    s.map_values(
        |e: (String, OutputState)|
            (
                e.0,
                OutputState {
                    lock_surface: None,
                    lock_render_state: LockRenderState::Unlocked,
                    ..e.1
                },
            ),
    )
}

/// All outputs with locked frames forgotten, lock surfaces kept.
pub open spec fn all_frames_unlocked(s: Seq<(String, OutputState)>) -> Seq<(String, OutputState)> {
    s.map_values(
        |e: (String, OutputState)|
            (e.0, OutputState { lock_render_state: LockRenderState::Unlocked, ..e.1 }),
    )
}

/// The output `name` in the state `st`.
pub open spec fn one_set(s: Seq<(String, OutputState)>, name: Seq<char>, st: OutputState) -> Seq<
    (String, OutputState),
> {
    s.map_values(
        |e: (String, OutputState)|
            if e.0@ == name {
                (e.0, st)
            } else {
                e
            },
    )
}

/// Every output's frame clock is in order.
pub open spec fn clocks_ok(s: Seq<(String, OutputState)>) -> bool {
    forall|i: int| 0 <= i < s.len() ==> (#[trigger] s[i]).1.wf()
}

/// The same outputs under the same names.
pub open spec fn same_names<V>(a: Seq<(String, V)>, b: Seq<(String, V)>) -> bool {
    &&& a.len() == b.len()
    &&& forall|i: int| 0 <= i < a.len() ==> (#[trigger] a[i]).0 == b[i].0
}

/// A table with the names of a valid table is valid and has the same names.
pub proof fn lemma_same_names<V>(a: NameMap<V>, b: NameMap<V>)
    requires
        a.wf(),
        same_names(a.entries@, b.entries@),
    ensures
        b.wf(),
        forall|n: Seq<char>| #[trigger] b@.contains_key(n) == a@.contains_key(n),
        forall|n: Seq<char>|
            a@.contains_key(n) ==> #[trigger] b@[n] == b.entries@[a.position(n)].1 && a@[n]
                == a.entries@[a.position(n)].1 && 0 <= a.position(n) < a.entries@.len()
                && a.entries@[a.position(n)].0@ == n,
{
    assert forall|i: int, j: int| 0 <= i < j < b.entries@.len() implies (
    #[trigger] b.entries@[i]).0@ != (#[trigger] b.entries@[j]).0@ by {
        assert(a.entries@[i].0 == b.entries@[i].0);
        assert(a.entries@[j].0 == b.entries@[j].0);
    }
    assert forall|n: Seq<char>| #[trigger] b@.contains_key(n) == a@.contains_key(n) by {
        if a.has(n) {
            let p = a.position(n);
            assert(a.entries@[p].0 == b.entries@[p].0);
            assert(b.entries@[p].0@ == n);
            assert(b.has(n));
        }
        if b.has(n) {
            let p = b.position(n);
            assert(a.entries@[p].0 == b.entries@[p].0);
            assert(a.entries@[p].0@ == n);
            assert(a.has(n));
        }
    }
    assert forall|n: Seq<char>| a@.contains_key(n) implies #[trigger] b@[n]
        == b.entries@[a.position(n)].1 && a@[n] == a.entries@[a.position(n)].1 && 0 <= a.position(n)
        < a.entries@.len() && a.entries@[a.position(n)].0@ == n by {
        assert(a.has(n));
        let p = a.position(n);
        assert(a.entries@[p].0 == b.entries@[p].0);
        b.lemma_entry(p);
        a.lemma_entry(p);
    }
}

/// Requests a redraw of every output.
pub fn request_all(states: &mut NameMap<OutputState>)
    requires
        old(states).wf(),
    ensures
        final(states).wf(),
        final(states).entries@ == all_requested(old(states).entries@),
        clocks_ok(old(states).entries@) ==> clocks_ok(final(states).entries@),
{
    let ghost before = *states;
    let mut i: usize = 0;
    while i < states.entries.len()
        invariant
            i <= states.entries@.len(),
            states.entries@.len() == before.entries@.len(),
            forall|j: int|
                0 <= j < i ==> #[trigger] states.entries@[j] == (
                    before.entries@[j].0,
                    with_request(before.entries@[j].1),
                ),
            forall|j: int|
                i <= j < before.entries@.len() ==> #[trigger] states.entries@[j]
                    == before.entries@[j],
        decreases states.entries@.len() - i,
    {
        let mut st = states.entries[i].1;
        st.redraw_state = st.redraw_state.queue_redraw();
        let name = states.entries[i].0.clone();
        states.entries.set(i, (name, st));
        i = i + 1;
    }
    assert(states.entries@ =~= all_requested(before.entries@));
    proof {
        lemma_same_names(before, *states);
    }
}

/// Replaces the state of one output; an output that is not there is left out.
pub fn put_state(states: &mut NameMap<OutputState>, name: &str, st: OutputState)
    requires
        old(states).wf(),
    ensures
        final(states).wf(),
        final(states).entries@ == one_set(old(states).entries@, name@, st),
        clocks_ok(old(states).entries@) && st.wf() ==> clocks_ok(final(states).entries@),
{
    let ghost before = *states;
    match states.find(name) {
        Some(i) => {
            let key = states.entries[i].0.clone();
            states.entries.set(i, (key, st));
            proof {
                assert forall|j: int| 0 <= j < before.entries@.len() && j != i implies (
                #[trigger] before.entries@[j]).0@ != name@ by {
                    assert(before.entries@[i as int].0@ == name@);
                }
            }
        },
        None => {
            proof {
                assert forall|j: int| 0 <= j < before.entries@.len() implies (
                #[trigger] before.entries@[j]).0@ != name@ by {
                    if before.entries@[j].0@ == name@ {
                        assert(before.has(name@));
                        assert(before@.contains_key(name@));
                    }
                }
            }
        },
    }
    assert(states.entries@ =~= one_set(before.entries@, name@, st));
    proof {
        lemma_same_names(before, *states);
    }
}

/// Requests a redraw of one output; an output that is not there is left out.
pub fn request_one(states: &mut NameMap<OutputState>, name: &str)
    requires
        old(states).wf(),
    ensures
        final(states).wf(),
        final(states).entries@ == one_requested(old(states).entries@, name@),
        clocks_ok(old(states).entries@) ==> clocks_ok(final(states).entries@),
{
    let ghost before = *states;
    match states.find(name) {
        Some(i) => {
            let mut st = states.entries[i].1;
            st.redraw_state = st.redraw_state.queue_redraw();
            put_state(states, name, st);
            proof {
                assert(before.entries@[i as int].0@ == name@);
                assert(states.entries@ =~= one_requested(before.entries@, name@));
            }
        },
        None => {
            proof {
                assert forall|j: int| 0 <= j < before.entries@.len() implies (
                #[trigger] before.entries@[j]).0@ != name@ by {
                    if before.entries@[j].0@ == name@ {
                        assert(before.has(name@));
                        assert(before@.contains_key(name@));
                    }
                }
                assert(states.entries@ =~= one_requested(before.entries@, name@));
            }
        },
    }
}

/// Forgets locked frames of every output, and lock surfaces too unless they are kept.
pub fn forget_lock(states: &mut NameMap<OutputState>, keep_surfaces: bool)
    requires
        old(states).wf(),
    ensures
        final(states).wf(),
        final(states).entries@ == if keep_surfaces {
            all_frames_unlocked(old(states).entries@)
        } else {
            all_unlocked(old(states).entries@)
        },
        clocks_ok(old(states).entries@) ==> clocks_ok(final(states).entries@),
{
    let ghost before = *states;
    let mut i: usize = 0;
    while i < states.entries.len()
        invariant
            i <= states.entries@.len(),
            states.entries@.len() == before.entries@.len(),
            forall|j: int|
                0 <= j < i ==> #[trigger] states.entries@[j] == (
                    before.entries@[j].0,
                    OutputState {
                        lock_surface: if keep_surfaces {
                            before.entries@[j].1.lock_surface
                        } else {
                            None
                        },
                        lock_render_state: LockRenderState::Unlocked,
                        ..before.entries@[j].1
                    },
                ),
            forall|j: int|
                i <= j < before.entries@.len() ==> #[trigger] states.entries@[j]
                    == before.entries@[j],
        decreases states.entries@.len() - i,
    {
        let mut st = states.entries[i].1;
        if !keep_surfaces {
            st.lock_surface = None;
        }
        st.lock_render_state = LockRenderState::Unlocked;
        let name = states.entries[i].0.clone();
        states.entries.set(i, (name, st));
        i = i + 1;
    }
    assert(states.entries@ =~= if keep_surfaces {
        all_frames_unlocked(before.entries@)
    } else {
        all_unlocked(before.entries@)
    });
    proof {
        lemma_same_names(before, *states);
    }
}

/// Every output has rendered a locked frame.
pub open spec fn all_locked(s: Seq<(String, OutputState)>) -> bool {
    forall|i: int| 0 <= i < s.len() ==> (#[trigger] s[i]).1.lock_render_state
        == LockRenderState::Locked
}

/// Tests whether every output has rendered a locked frame.
pub fn check_all_locked(states: &NameMap<OutputState>) -> (r: bool)
    ensures
        r == all_locked(states.entries@),
{
    let mut i: usize = 0;
    while i < states.entries.len()
        invariant
            i <= states.entries@.len(),
            forall|j: int|
                0 <= j < i ==> (#[trigger] states.entries@[j]).1.lock_render_state
                    == LockRenderState::Locked,
        decreases states.entries@.len() - i,
    {
        if states.entries[i].1.lock_render_state != LockRenderState::Locked {
            return false;
        }
        i = i + 1;
    }
    true
}

/// Some output has a redraw queued, be it behind the timer of an estimated VBlank.
pub open spec fn queued_somewhere(s: Seq<(String, OutputState)>) -> bool {
    exists|i: int| 0 <= i < s.len() && (#[trigger] s[i]).1.redraw_state.is_due()
}

/// Tests whether some output has a redraw queued.
pub fn any_queued(states: &NameMap<OutputState>) -> (r: bool)
    ensures
        r == queued_somewhere(states.entries@),
{
    let mut i: usize = 0;
    while i < states.entries.len()
        invariant
            i <= states.entries@.len(),
            forall|j: int|
                0 <= j < i ==> !(#[trigger] states.entries@[j]).1.redraw_state.is_due(),
        decreases states.entries@.len() - i,
    {
        if states.entries[i].1.redraw_state.needs_redraw() {
            return true;
        }
        i = i + 1;
    }
    false
}

/// `i` is the first output whose redraw is due, among those with the name `only` if one is
/// given.
pub open spec fn first_due(
    s: Seq<(String, OutputState)>,
    only: Option<Seq<char>>,
    i: int,
) -> bool {
    &&& 0 <= i < s.len()
    &&& s[i].1.redraw_state.is_due()
    &&& only matches Some(n) ==> s[i].0@ == n
    &&& forall|j: int|
        0 <= j < i ==> !((#[trigger] s[j]).1.redraw_state.is_due() && (only matches Some(n)
            ==> s[j].0@ == n))
}

/// Some output's redraw is due, among those with the name `only` if one is given.
pub open spec fn any_due(s: Seq<(String, OutputState)>, only: Option<Seq<char>>) -> bool {
    exists|i: int| first_due(s, only, i)
}

/// Finds the first output whose redraw is due.
pub fn find_due(states: &NameMap<OutputState>, only: Option<&str>) -> (r: Option<usize>)
    ensures
        match r {
            Some(i) => first_due(
                states.entries@,
                crate::module::opt_view(only),
                i as int,
            ),
            None => !any_due(states.entries@, crate::module::opt_view(only)),
        },
{
    let mut i: usize = 0;
    while i < states.entries.len()
        invariant
            i <= states.entries@.len(),
            forall|j: int|
                0 <= j < i ==> !((#[trigger] states.entries@[j]).1.redraw_state.is_due() && (
                crate::module::opt_view(only) matches Some(n) ==> states.entries@[j].0@ == n)),
        decreases states.entries@.len() - i,
    {
        let named = match only {
            Some(n) => str_eq(states.entries[i].0.as_str(), n),
            None => true,
        };
        if named && states.entries[i].1.redraw_state.needs_redraw() {
            return Some(i);
        }
        i = i + 1;
    }
    None
}

/// `i` is the first mapped output that holds the point.
pub open spec fn first_containing(s: Seq<(String, MappedOutput)>, p: Point, i: int) -> bool {
    &&& 0 <= i < s.len()
    &&& s[i].1.geo.has_point(p)
    &&& forall|j: int| 0 <= j < i ==> !(#[trigger] s[j]).1.geo.has_point(p)
}

/// Finds the first mapped output that holds the point.
pub fn find_containing(space: &NameMap<MappedOutput>, p: Point) -> (r: Option<usize>)
    ensures
        match r {
            Some(i) => first_containing(space.entries@, p, i as int),
            None => forall|j: int|
                0 <= j < space.entries@.len() ==> !(#[trigger] space.entries@[j]).1.geo.has_point(
                    p,
                ),
        },
{
    let mut i: usize = 0;
    while i < space.entries.len()
        invariant
            i <= space.entries@.len(),
            forall|j: int| 0 <= j < i ==> !(#[trigger] space.entries@[j]).1.geo.has_point(p),
        decreases space.entries@.len() - i,
    {
        if space.entries[i].1.geo.contains(p) {
            return Some(i);
        }
        i = i + 1;
    }
    None
}

/// The extent of the global space that the first `n` outputs cover, counted from the origin.
pub open spec fn covered(s: Seq<(String, MappedOutput)>, n: int) -> (int, int)
    decreases n,
{
    if n <= 0 {
        (0, 0)
    } else {
        let (w, h) = covered(s, n - 1);
        let g = s[n - 1].1.geo;
        let r = g.loc.x + g.size.w;
        let b = g.loc.y + g.size.h;
        (
            if r > w {
                r
            } else {
                w
            },
            if b > h {
                b
            } else {
                h
            },
        )
    }
}

/// Every output's edges are 32-bit numbers.
pub open spec fn edges_fit(s: Seq<(String, MappedOutput)>) -> bool {
    forall|i: int|
        0 <= i < s.len() ==> {
            let g = (#[trigger] s[i]).1.geo;
            &&& i32::MIN <= g.loc.x + g.size.w <= i32::MAX
            &&& i32::MIN <= g.loc.y + g.size.h <= i32::MAX
        }
}

/// The extent that all outputs cover, counted from the origin.
pub fn total_extent(space: &NameMap<MappedOutput>) -> (r: Size)
    requires
        edges_fit(space.entries@),
    ensures
        r.w == covered(space.entries@, space.entries@.len() as int).0,
        r.h == covered(space.entries@, space.entries@.len() as int).1,
        r.w >= 0,
        r.h >= 0,
{
    let mut w: i32 = 0;
    let mut h: i32 = 0;
    let mut i: usize = 0;
    while i < space.entries.len()
        invariant
            edges_fit(space.entries@),
            i <= space.entries@.len(),
            w == covered(space.entries@, i as int).0,
            h == covered(space.entries@, i as int).1,
            w >= 0,
            h >= 0,
        decreases space.entries@.len() - i,
    {
        let g = space.entries[i].1.geo;
        let right: i32 = g.loc.x + g.size.w;
        let bottom: i32 = g.loc.y + g.size.h;
        if right > w {
            w = right;
        }
        if bottom > h {
            h = bottom;
        }
        i = i + 1;
    }
    Size { w, h }
}

/// The total extent reaches every output's right and bottom edge, and no further than one of
/// them or the origin.
pub proof fn law_extent_covers_outputs(s: Seq<(String, MappedOutput)>, i: int)
    requires
        0 <= i < s.len(),
    ensures
        s[i].1.geo.loc.x + s[i].1.geo.size.w <= covered(s, s.len() as int).0,
        s[i].1.geo.loc.y + s[i].1.geo.size.h <= covered(s, s.len() as int).1,
        covered(s, s.len() as int).0 == 0 || exists|j: int|
            0 <= j < s.len() && covered(s, s.len() as int).0 == (#[trigger] s[j]).1.geo.loc.x
                + s[j].1.geo.size.w,
{
    lemma_covered_grows(s, i + 1, s.len() as int);
    lemma_covered_reached(s, s.len() as int);
}

proof fn lemma_covered_grows(s: Seq<(String, MappedOutput)>, m: int, n: int)
    requires
        0 <= m <= n,
    ensures
        covered(s, m).0 <= covered(s, n).0,
        covered(s, m).1 <= covered(s, n).1,
    decreases n,
{
    if m < n {
        lemma_covered_grows(s, m, n - 1);
    }
}

proof fn lemma_covered_reached(s: Seq<(String, MappedOutput)>, n: int)
    requires
        0 <= n <= s.len(),
    ensures
        covered(s, n).0 == 0 || exists|j: int|
            0 <= j < n && covered(s, n).0 == (#[trigger] s[j]).1.geo.loc.x + s[j].1.geo.size.w,
    decreases n,
{
    if n > 0 {
        lemma_covered_reached(s, n - 1);
        if covered(s, n).0 == covered(s, n - 1).0 && covered(s, n).0 != 0 {
            let j = choose|j: int|
                0 <= j < n - 1 && covered(s, n - 1).0 == (#[trigger] s[j]).1.geo.loc.x
                    + s[j].1.geo.size.w;
            assert(0 <= j < n && covered(s, n).0 == s[j].1.geo.loc.x + s[j].1.geo.size.w);
        } else if covered(s, n).0 != 0 {
            assert(covered(s, n).0 == s[n - 1].1.geo.loc.x + s[n - 1].1.geo.size.w);
        }
    }
}

} // verus!
