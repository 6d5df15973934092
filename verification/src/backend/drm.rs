//! Decisions of the display backend: which mode an output runs in, how long a refresh takes,
//! what hotplug and lid events ask for, and gamma ramps.
use crate::pipewire::stream::MODIFIER_INVALID;
use crate::time::Duration;
use vstd::prelude::*;

verus! {

/// Message to trigger deferred display initialization
#[derive(Clone, Copy, Debug, PartialEq, Eq, Structural)]
pub enum DrmMessage {
    InitializeDrm,
}

/// Marker type for the display backend
#[derive(Clone, Copy, Debug, PartialEq, Eq, Structural)]
pub struct DrmBackend;

/// The timing of a display mode.
#[derive(Clone, Copy, Debug, PartialEq, Eq, Structural)]
pub struct DrmMode {
    pub width: u16,
    pub height: u16,
    /// Pixel clock in kilohertz.
    pub clock: u32,
    /// Pixels per line, blanking included.
    pub htotal: u16,
    /// Lines per frame, blanking included.
    pub vtotal: u16,
    /// How often each line is scanned.
    pub vscan: u16,
    pub interlace: bool,
    pub dblscan: bool,
    /// The display asks for this mode.
    pub preferred: bool,
}

impl DrmMode {
    /// The mode has lines and columns.
    pub open spec fn has_timing(&self) -> bool {
        self.htotal > 0 && self.vtotal > 0
    }

    /// The refresh rate in millihertz, rounded to the nearest before interlacing, double scan and
    /// repeated lines are counted.
    pub open spec fn millihertz(&self) -> int {
        let base = (self.clock as int * 1_000_000 / self.htotal as int + self.vtotal as int / 2)
            / self.vtotal as int;
        let fields = if self.interlace {
            base * 2
        } else {
            base
        };
        let scans = if self.dblscan {
            fields / 2
        } else {
            fields
        };
        if self.vscan > 1 {
            scans / self.vscan as int
        } else {
            scans
        }
    }

    /// The refresh rate in millihertz.
    pub fn refresh(&self) -> (r: i32)
        requires
            self.has_timing(),
        ensures
            r == (self.millihertz() as u64) as i32,
    {
        let clock: u64 = self.clock as u64;
        let htotal: u64 = self.htotal as u64;
        let vtotal: u64 = self.vtotal as u64;
        let ghost c = clock as int * 1_000_000;
        let ghost q = c / htotal as int;
        assert(0 <= q <= c) by (nonlinear_arith)
            requires
                c >= 0,
                htotal >= 1,
                q == c / htotal as int,
        ;
        let ghost n = q + vtotal as int / 2;
        assert(0 <= n / vtotal as int <= n) by (nonlinear_arith)
            requires
                n >= 0,
                vtotal >= 1,
        ;
        let mut refresh: u64 = (clock * 1_000_000 / htotal + vtotal / 2) / vtotal;
        if self.interlace {
            refresh = refresh * 2;
        }
        if self.dblscan {
            refresh = refresh / 2;
        }
        let ghost scans = refresh as int;
        if self.vscan > 1 {
            let vscan: u64 = self.vscan as u64;
            assert(0 <= scans / vscan as int <= scans) by (nonlinear_arith)
                requires
                    scans >= 0,
                    vscan > 1,
            ;
            refresh = refresh / vscan;
        }
        assert(refresh == self.millihertz());
        #[verifier::truncate]
        (refresh as i32)
    }

    /// The mode shows this many pixels.
    pub open spec fn is_size(&self, width: i32, height: i32) -> bool {
        self.width == width && self.height == height
    }

    /// The refresh rate as `refresh` gives it.
    pub open spec fn rate(&self) -> int {
        ((self.millihertz() as u64) as i32) as int
    }
}

/// The distance of two rates.
pub open spec fn apart(a: int, b: int) -> int {
    if a >= b {
        a - b
    } else {
        b - a
    }
}

/// The mode has the wanted size and a rate within one hertz of the target.
pub open spec fn is_near(m: DrmMode, width: i32, height: i32, target_hz: i32) -> bool {
    m.is_size(width, height) && apart(m.rate(), target_hz * 1000) < 1000
}

/// `i` is the first of the modes nearest to the target rate.
pub open spec fn is_nearest(
    modes: Seq<DrmMode>,
    width: i32,
    height: i32,
    target_hz: i32,
    i: int,
) -> bool {
    &&& 0 <= i < modes.len()
    &&& is_near(modes[i], width, height, target_hz)
    &&& forall|j: int|
        0 <= j < modes.len() && is_near(#[trigger] modes[j], width, height, target_hz) ==> apart(
            modes[i].rate(),
            target_hz * 1000,
        ) <= apart(modes[j].rate(), target_hz * 1000)
    &&& forall|j: int|
        0 <= j < i && is_near(#[trigger] modes[j], width, height, target_hz) ==> apart(
            modes[i].rate(),
            target_hz * 1000,
        ) < apart(modes[j].rate(), target_hz * 1000)
}

/// `i` is the last of the fastest modes of the wanted size.
pub open spec fn is_fastest(modes: Seq<DrmMode>, width: i32, height: i32, i: int) -> bool {
    &&& 0 <= i < modes.len()
    &&& modes[i].is_size(width, height)
    &&& forall|j: int|
        0 <= j < modes.len() && (#[trigger] modes[j]).is_size(width, height) ==> modes[j].rate()
            <= modes[i].rate()
    &&& forall|j: int|
        i < j < modes.len() && (#[trigger] modes[j]).is_size(width, height) ==> modes[j].rate()
            < modes[i].rate()
}

fn rate_distance(rate: i32, target_hz: i32) -> (r: i64)
    ensures
        r == apart(rate as int, target_hz * 1000),
{
    let d: i64 = rate as i64 - target_hz as i64 * 1000;
    if d >= 0 {
        d
    } else {
        -d
    }
}

/// Every mode of the wanted size has a timing.
pub open spec fn timings_ok(modes: Seq<DrmMode>, width: i32, height: i32) -> bool {
    forall|j: int|
        0 <= j < modes.len() && (#[trigger] modes[j]).is_size(width, height)
            ==> modes[j].has_timing()
}

fn nearest_mode(modes: &Vec<DrmMode>, width: i32, height: i32, target_hz: i32) -> (r: Option<usize>)
    requires
        timings_ok(modes@, width, height),
    ensures
        match r {
            Some(i) => is_nearest(modes@, width, height, target_hz, i as int),
            None => forall|j: int|
                0 <= j < modes@.len() ==> !is_near(
                    #[trigger] modes@[j],
                    width,
                    height,
                    target_hz,
                ),
        },
{
    let mut best: Option<usize> = None;
    let mut best_distance: i64 = 0;
    let mut i: usize = 0;
    while i < modes.len()
        invariant
            i <= modes@.len(),
            timings_ok(modes@, width, height),
            match best {
                Some(b) => b < i && is_nearest(
                    modes@.subrange(0, i as int),
                    width,
                    height,
                    target_hz,
                    b as int,
                ) && best_distance == apart(modes@[b as int].rate(), target_hz * 1000),
                None => forall|j: int|
                    0 <= j < i ==> !is_near(#[trigger] modes@[j], width, height, target_hz),
            },
        decreases modes@.len() - i,
    {
        let m = modes[i];
        let ghost before = modes@.subrange(0, i as int);
        let ghost after = modes@.subrange(0, i as int + 1);
        assert(forall|j: int| 0 <= j < i ==> #[trigger] after[j] == before[j]);
        assert(after[i as int] == m);
        assert(forall|j: int| 0 <= j < i ==> #[trigger] after[j] == modes@[j]);
        if m.width as i32 == width && m.height as i32 == height {
            assert(modes@[i as int].is_size(width, height));
            let d: i64 = rate_distance(m.refresh(), target_hz);
            if d < 1000 {
                let take = match best {
                    Some(_) => d < best_distance,
                    None => true,
                };
                if take {
                    best = Some(i);
                    best_distance = d;
                }
            }
        }
        i = i + 1;
    }
    assert(modes@.subrange(0, i as int) =~= modes@);
    best
}

fn fastest_mode(modes: &Vec<DrmMode>, width: i32, height: i32) -> (r: Option<usize>)
    requires
        timings_ok(modes@, width, height),
    ensures
        match r {
            Some(i) => is_fastest(modes@, width, height, i as int),
            None => forall|j: int|
                0 <= j < modes@.len() ==> !(#[trigger] modes@[j]).is_size(width, height),
        },
{
    let mut best: Option<usize> = None;
    let mut best_rate: i32 = 0;
    let mut i: usize = 0;
    while i < modes.len()
        invariant
            i <= modes@.len(),
            timings_ok(modes@, width, height),
            match best {
                Some(b) => b < i && is_fastest(
                    modes@.subrange(0, i as int),
                    width,
                    height,
                    b as int,
                ) && best_rate == modes@[b as int].rate(),
                None => forall|j: int|
                    0 <= j < i ==> !(#[trigger] modes@[j]).is_size(width, height),
            },
        decreases modes@.len() - i,
    {
        let m = modes[i];
        let ghost before = modes@.subrange(0, i as int);
        let ghost after = modes@.subrange(0, i as int + 1);
        assert(forall|j: int| 0 <= j < i ==> #[trigger] after[j] == before[j]);
        assert(after[i as int] == m);
        assert(forall|j: int| 0 <= j < i ==> #[trigger] after[j] == modes@[j]);
        if m.width as i32 == width && m.height as i32 == height {
            assert(modes@[i as int].is_size(width, height));
            let rate: i32 = m.refresh();
            let take = match best {
                Some(_) => rate >= best_rate,
                None => true,
            };
            if take {
                best = Some(i);
                best_rate = rate;
            }
        }
        i = i + 1;
    }
    assert(modes@.subrange(0, i as int) =~= modes@);
    best
}

/// Find a display mode matching the requested resolution and optional refresh rate.
///
/// `refresh_hz`: target refresh rate in Hz (e.g., 60 for 60Hz).
/// When specified, picks the mode whose refresh is closest (within 1Hz).
/// When omitted, picks the highest available refresh rate.
pub fn resolve_drm_mode(
    modes: &Vec<DrmMode>,
    width: i32,
    height: i32,
    refresh_hz: Option<i32>,
) -> (r: Option<DrmMode>)
    requires
        timings_ok(modes@, width, height),
    ensures
        match (r, refresh_hz) {
            (Some(m), Some(hz)) => exists|i: int|
                #![trigger modes@[i]]
                is_nearest(modes@, width, height, hz, i) && m == modes@[i],
            (None, Some(hz)) => forall|j: int|
                0 <= j < modes@.len() ==> !is_near(#[trigger] modes@[j], width, height, hz),
            (Some(m), None) => exists|i: int|
                #![trigger modes@[i]]
                is_fastest(modes@, width, height, i) && m == modes@[i],
            (None, None) => forall|j: int|
                0 <= j < modes@.len() ==> !(#[trigger] modes@[j]).is_size(width, height),
        },
{
    let found: Option<usize> = match refresh_hz {
        Some(hz) => nearest_mode(modes, width, height, hz),
        None => fastest_mode(modes, width, height),
    };
    match found {
        Some(i) => Some(modes[i]),
        None => None,
    }
}

/// The first mode that the display prefers, or the first one of all.
pub open spec fn preferred_of(modes: Seq<DrmMode>) -> Option<DrmMode> {
    if modes.len() == 0 {
        None
    } else if exists|i: int| is_first_preferred(modes, i) {
        Some(modes[choose|i: int| is_first_preferred(modes, i)])
    } else {
        Some(modes[0])
    }
}

pub open spec fn is_first_preferred(modes: Seq<DrmMode>, i: int) -> bool {
    0 <= i < modes.len() && modes[i].preferred && forall|j: int|
        0 <= j < i ==> !(#[trigger] modes[j]).preferred
}

/// Find the preferred display mode, falling back to the first available.
pub fn preferred_drm_mode(modes: &Vec<DrmMode>) -> (r: Option<DrmMode>)
    ensures
        r == preferred_of(modes@),
{
    let mut i: usize = 0;
    while i < modes.len()
        invariant
            i <= modes@.len(),
            forall|j: int| 0 <= j < i ==> !(#[trigger] modes@[j]).preferred,
        decreases modes@.len() - i,
    {
        if modes[i].preferred {
            proof {
                assert(is_first_preferred(modes@, i as int));
                let k = choose|k: int| is_first_preferred(modes@, k);
                assert(k == i);
            }
            return Some(modes[i]);
        }
        i = i + 1;
    }
    if modes.len() > 0 {
        Some(modes[0])
    } else {
        None
    }
}

/// A mode is found for every output that has one at all: the configured mode where it exists,
/// the preferred or first one otherwise.
pub fn select_mode(modes: &Vec<DrmMode>, wanted: Option<(i32, i32, Option<i32>)>) -> (r: Option<
    DrmMode,
>)
    requires
        wanted matches Some((w, h, _)) ==> timings_ok(modes@, w, h),
    ensures
        r is Some <==> modes@.len() > 0,
        wanted is None ==> r == preferred_of(modes@),
        wanted matches Some((w, h, Some(hz))) ==> (r == preferred_of(modes@) && forall|j: int|
            0 <= j < modes@.len() ==> !is_near(#[trigger] modes@[j], w, h, hz)) || exists|i: int|
            #![trigger modes@[i]]
            is_nearest(modes@, w, h, hz, i) && r == Some(modes@[i]),
        wanted matches Some((w, h, None)) ==> (r == preferred_of(modes@) && forall|j: int|
            0 <= j < modes@.len() ==> !(#[trigger] modes@[j]).is_size(w, h)) || exists|i: int|
            #![trigger modes@[i]]
            is_fastest(modes@, w, h, i) && r == Some(modes@[i]),
{
    match wanted {
        Some((w, h, refresh)) => match resolve_drm_mode(modes, w, h, refresh) {
            Some(m) => Some(m),
            None => preferred_drm_mode(modes),
        },
        None => preferred_drm_mode(modes),
    }
}

impl DrmMode {
    /// Pixels times a million per frame, double scan and repeated lines counted.
    pub open spec fn frame_work(&self) -> int {
        let base = self.htotal as int * self.vtotal as int * 1_000_000;
        let scans = if self.dblscan {
            base * 2
        } else {
            base
        };
        if self.vscan > 1 {
            scans * self.vscan as int
        } else {
            scans
        }
    }

    /// Kilohertz of the clock, counted twice for interlaced modes.
    pub open spec fn clock_rate(&self) -> int {
        if self.interlace {
            self.clock as int * 2
        } else {
            self.clock as int
        }
    }

    /// The time that one refresh takes in nanoseconds, rounded to the nearest; 16.667 ms for a
    /// mode without timing.
    pub open spec fn interval_nanos(&self) -> int {
        if self.clock == 0 || self.htotal == 0 || self.vtotal == 0 {
            16_667_000
        } else {
            (self.frame_work() + self.clock_rate() / 2) / self.clock_rate()
        }
    }
}

/// Compute precise refresh interval from display mode timing parameters.
///
/// Uses raw pixel clock and total line counts instead of the rounded refresh rate,
/// giving nanosecond precision (e.g. 4167291ns for 239.964Hz instead of
/// 4166µs from integer division).
pub fn refresh_interval(mode: &DrmMode) -> (r: Duration)
    requires
        mode.clock != 0 && mode.htotal != 0 && mode.vtotal != 0 ==> mode.frame_work()
            + mode.clock_rate() / 2 <= u64::MAX,
    ensures
        r@ == mode.interval_nanos(),
{
    if mode.clock == 0 || mode.htotal == 0 || mode.vtotal == 0 {
        return Duration::from_micros(16_667);
    }
    let clock: u64 = mode.clock as u64;
    let htotal: u64 = mode.htotal as u64;
    let vtotal: u64 = mode.vtotal as u64;
    assert(0 <= htotal * vtotal <= 0xffff * 0xffff) by (nonlinear_arith)
        requires
            htotal <= 0xffff,
            vtotal <= 0xffff,
    ;
    let mut numerator: u64 = htotal * vtotal * 1_000_000;
    let mut denominator: u64 = clock;
    if mode.interlace {
        denominator = denominator * 2;
    }
    if mode.dblscan {
        numerator = numerator * 2;
    }
    if mode.vscan > 1 {
        let vscan: u64 = mode.vscan as u64;
        assert(numerator as int * vscan as int >= 0) by (nonlinear_arith);
        numerator = numerator * vscan;
    }
    let ghost n = numerator as int + denominator as int / 2;
    let ghost d = denominator as int;
    assert(0 <= n / d <= n) by (nonlinear_arith)
        requires
            n >= 0,
            d >= 1,
    ;
    let refresh_interval_ns: u64 = (numerator + denominator / 2) / denominator;
    Duration::from_nanos(refresh_interval_ns)
}

/// Tiling with compression, by the modifiers' numbers.
pub const Y_TILED_CCS: u64 = 0x0100_0000_0000_0004;

pub const Y_TILED_GEN12_RC_CCS: u64 = 0x0100_0000_0000_0006;

pub const Y_TILED_GEN12_MC_CCS: u64 = 0x0100_0000_0000_0007;

/// The modifier stands for a compressed tiling.
pub open spec fn is_ccs(modifier: u64) -> bool {
    modifier == Y_TILED_CCS || modifier == Y_TILED_GEN12_RC_CCS || modifier == Y_TILED_GEN12_MC_CCS
}

/// The formats, as pairs of a pixel format and a modifier, that an output is rendered in: those of
/// the renderer without the problematic modifiers.
pub fn scanout_formats(formats: &Vec<(u32, u64)>) -> (r: Vec<(u32, u64)>)
    ensures
        r@ == formats@.filter(|f: (u32, u64)| !is_ccs(f.1)),
{
    let ghost keep = |f: (u32, u64)| !is_ccs(f.1);
    let mut out: Vec<(u32, u64)> = Vec::new();
    let mut i: usize = 0;
    proof {
        reveal(Seq::filter);
    }
    while i < formats.len()
        invariant
            i <= formats@.len(),
            keep == (|f: (u32, u64)| !is_ccs(f.1)),
            out@ == formats@.take(i as int).filter(keep),
        decreases formats@.len() - i,
    {
        let f: (u32, u64) = formats[i];
        proof {
            assert(formats@.take(i + 1) =~= formats@.take(i as int).push(f));
            formats@.take(i as int).lemma_filter_push(f, keep);
        }
        if f.1 != Y_TILED_CCS && f.1 != Y_TILED_GEN12_RC_CCS && f.1 != Y_TILED_GEN12_MC_CCS {
            out.push(f);
        }
        i = i + 1;
    }
    assert(formats@.take(i as int) =~= formats@);
    out
}

/// The formats that are tried where the others are refused: those whose modifier the driver
/// chooses.
pub fn fallback_formats(formats: &Vec<(u32, u64)>) -> (r: Vec<(u32, u64)>)
    ensures
        r@ == formats@.filter(|f: (u32, u64)| f.1 == MODIFIER_INVALID),
{
    let ghost keep = |f: (u32, u64)| f.1 == MODIFIER_INVALID;
    let mut out: Vec<(u32, u64)> = Vec::new();
    let mut i: usize = 0;
    proof {
        reveal(Seq::filter);
    }
    while i < formats.len()
        invariant
            i <= formats@.len(),
            keep == (|f: (u32, u64)| f.1 == MODIFIER_INVALID),
            out@ == formats@.take(i as int).filter(keep),
        decreases formats@.len() - i,
    {
        let f: (u32, u64) = formats[i];
        proof {
            assert(formats@.take(i + 1) =~= formats@.take(i as int).push(f));
            formats@.take(i as int).lemma_filter_push(f, keep);
        }
        if f.1 == MODIFIER_INVALID {
            out.push(f);
        }
        i = i + 1;
    }
    assert(formats@.take(i as int) =~= formats@);
    out
}

} // verus!
