//! A screen cast stream: negotiating its format, pacing its frames and keeping its buffers.
//!
//! The stream itself and the memory behind its buffers live outside. What PipeWire reports is
//! handed to the methods here, and what they give back is what to tell it.
use crate::dbus::CastTarget;
use crate::geometry::{Point, Size};
use crate::time::{Duration, MAX_NANOS};
use vstd::prelude::*;

verus! {

/// Allowance for frame timing in nanoseconds: if the delay is below this, proceed anyway.
pub const CAST_DELAY_ALLOWANCE: u64 = 100_000;

/// The modifier of buffers without tiling.
pub const MODIFIER_LINEAR: u64 = 0;

/// The modifier that stands for "chosen by the driver".
pub const MODIFIER_INVALID: u64 = 0x00ff_ffff_ffff_ffff;

/// An extent in physical pixels.
#[derive(Clone, Copy, Debug, PartialEq, Eq, Structural)]
pub struct CastSize {
    pub w: u32,
    pub h: u32,
}

/// Cast state machine: ResizePending → ConfirmationPending → Ready
#[derive(Clone, Copy, Debug, PartialEq, Eq, Structural)]
pub enum CastState {
    /// Waiting for PipeWire to negotiate format at the requested size.
    /// This is both the initial state and the state after output resize.
    ResizePending { pending_size: CastSize },
    /// Modifier fixated, waiting for PipeWire to confirm the chosen format.
    /// Only entered when several modifiers were offered.
    ConfirmationPending { size: CastSize, modifier: u64, plane_count: i32 },
    /// Format confirmed, ready to stream.
    Ready {
        size: CastSize,
        modifier: u64,
        plane_count: i32,
        /// Last cursor position for detecting cursor-only movement
        last_cursor: Option<Point>,
    },
}

impl CastState {
    /// The size that a format has to have.
    pub open spec fn expected(self) -> CastSize {
        match self {
            CastState::ResizePending { pending_size } => pending_size,
            CastState::ConfirmationPending { size, .. } => size,
            CastState::Ready { size, .. } => size,
        }
    }

    /// The size that is still being negotiated, if one is.
    pub fn pending_size(&self) -> (r: Option<CastSize>)
        ensures
            r == if self is Ready {
                None
            } else {
                Some(self.expected())
            },
    {
        match self {
            CastState::ResizePending { pending_size } => Some(*pending_size),
            CastState::ConfirmationPending { size, .. } => Some(*size),
            CastState::Ready { .. } => None,
        }
    }

    /// The size that a format has to have.
    pub fn expected_format_size(&self) -> (r: CastSize)
        ensures
            r == self.expected(),
    {
        match self {
            CastState::ResizePending { pending_size } => *pending_size,
            CastState::ConfirmationPending { size, .. } => *size,
            CastState::Ready { size, .. } => *size,
        }
    }
}

/// Pixel formats of a stream.
#[derive(Clone, Copy, Debug, PartialEq, Eq, Structural)]
pub enum VideoFormat {
    /// With transparency, for windows.
    Bgra,
    /// Without, for outputs.
    Bgrx,
}

/// The formats that a stream offers.
#[derive(Debug)]
pub struct VideoParams {
    pub format: VideoFormat,
    /// The modifier to start from.
    pub modifier: i64,
    /// All modifiers; none beside a fixed one.
    pub alternatives: Vec<i64>,
    /// The other side must leave the choice among the modifiers open.
    pub dont_fixate: bool,
    pub size: CastSize,
    /// The highest rate in frames per second.
    pub max_framerate: u32,
}

/// `p` offers the modifiers, the first of them by default, or the linear one where there is none.
pub open spec fn offers(
    p: VideoParams,
    size: CastSize,
    refresh: u32,
    modifiers: Seq<i64>,
    alpha: bool,
) -> bool {
    &&& p.format == if alpha {
        VideoFormat::Bgra
    } else {
        VideoFormat::Bgrx
    }
    &&& p.modifier == if modifiers.len() > 0 {
        modifiers[0]
    } else {
        0
    }
    &&& p.alternatives@ == modifiers
    &&& p.dont_fixate == (modifiers.len() > 1)
    &&& p.size == size
    &&& p.max_framerate == refresh
}

/// `p` offers just one modifier.
pub open spec fn offers_one(
    p: VideoParams,
    size: CastSize,
    refresh: u32,
    modifier: u64,
    alpha: bool,
) -> bool {
    &&& p.format == if alpha {
        VideoFormat::Bgra
    } else {
        VideoFormat::Bgrx
    }
    &&& p.modifier == modifier as i64
    &&& p.alternatives@.len() == 0
    &&& !p.dont_fixate
    &&& p.size == size
    &&& p.max_framerate == refresh
}

fn video_format(alpha: bool) -> (r: VideoFormat)
    ensures
        r == if alpha {
            VideoFormat::Bgra
        } else {
            VideoFormat::Bgrx
        },
{
    if alpha {
        VideoFormat::Bgra
    } else {
        VideoFormat::Bgrx
    }
}

fn copy_modifiers(m: &Vec<i64>) -> (r: Vec<i64>)
    ensures
        r@ == m@,
{
    let mut out: Vec<i64> = Vec::new();
    let mut i: usize = 0;
    while i < m.len()
        invariant
            i <= m@.len(),
            out@ == m@.subrange(0, i as int),
        decreases m@.len() - i,
    {
        out.push(m[i]);
        i = i + 1;
        assert(out@ =~= m@.subrange(0, i as int));
    }
    assert(m@.subrange(0, i as int) =~= m@);
    out
}

/// Create video format parameters with available modifiers.
/// The choice is left open only when multiple modifiers are offered.
pub fn make_video_params(
    size: CastSize,
    refresh: u32,
    render_formats: &Vec<i64>,
    alpha: bool,
) -> (r: VideoParams)
    ensures
        offers(r, size, refresh, render_formats@, alpha),
{
    let modifier: i64 = if render_formats.len() > 0 {
        render_formats[0]
    } else {
        0
    };
    VideoParams {
        format: video_format(alpha),
        modifier,
        alternatives: copy_modifiers(render_formats),
        dont_fixate: render_formats.len() > 1,
        size,
        max_framerate: refresh,
    }
}

/// Create fixated video format params (single modifier)
pub fn make_video_params_fixated(
    size: CastSize,
    refresh: u32,
    modifier: u64,
    alpha: bool,
) -> (r: VideoParams)
    ensures
        offers_one(r, size, refresh, modifier, alpha),
{
    VideoParams {
        format: video_format(alpha),
        modifier: #[verifier::truncate]
        (modifier as i64),
        alternatives: Vec::new(),
        dont_fixate: false,
        size,
        max_framerate: refresh,
    }
}

/// What a stream asks of its buffers.
#[derive(Clone, Copy, Debug, PartialEq, Eq, Structural)]
pub struct BufferParams {
    pub default_count: i32,
    pub min_count: i32,
    pub max_count: i32,
    /// Blocks of memory in each buffer.
    pub blocks: i32,
}

/// The buffers for a format with this number of planes.
pub fn buffer_params(plane_count: i32) -> (r: BufferParams)
    ensures
        r == (BufferParams { default_count: 8, min_count: 2, max_count: 16, blocks: plane_count }),
{
    BufferParams { default_count: 8, min_count: 2, max_count: 16, blocks: plane_count }
}

/// How a buffer is allocated.
#[derive(Debug)]
pub enum AllocationPlan {
    /// With a modifier of the driver's choice.
    Implicit,
    /// With one of these modifiers.
    Explicit(Vec<u64>),
}

/// The modifiers without the invalid one.
pub open spec fn valid_modifiers(m: Seq<i64>) -> Seq<u64>
    decreases m.len(),
{
    if m.len() == 0 {
        Seq::empty()
    } else {
        let head = valid_modifiers(m.drop_last());
        if m.last() as u64 == MODIFIER_INVALID {
            head
        } else {
            head.push(m.last() as u64)
        }
    }
}

/// Decides how a buffer is allocated with one of the modifiers.
pub fn allocation_plan(modifiers: &Vec<i64>) -> (r: AllocationPlan)
    ensures
        match r {
            AllocationPlan::Implicit => modifiers@.len() == 1 && modifiers@[0] as u64
                == MODIFIER_INVALID,
            AllocationPlan::Explicit(list) => !(modifiers@.len() == 1 && modifiers@[0] as u64
                == MODIFIER_INVALID) && list@ == valid_modifiers(modifiers@),
        },
{
    if modifiers.len() == 1 {
        let only: u64 = #[verifier::truncate]
        (modifiers[0] as u64);
        if only == MODIFIER_INVALID {
            return AllocationPlan::Implicit;
        }
    }
    let mut list: Vec<u64> = Vec::new();
    let mut i: usize = 0;
    assert(modifiers@.subrange(0, 0) =~= Seq::<i64>::empty());
    while i < modifiers.len()
        invariant
            i <= modifiers@.len(),
            list@ == valid_modifiers(modifiers@.subrange(0, i as int)),
        decreases modifiers@.len() - i,
    {
        assert(modifiers@.subrange(0, i + 1).drop_last() =~= modifiers@.subrange(0, i as int));
        let m: u64 = #[verifier::truncate]
        (modifiers[i] as u64);
        if m != MODIFIER_INVALID {
            list.push(m);
        }
        i = i + 1;
    }
    assert(modifiers@.subrange(0, i as int) =~= modifiers@);
    AllocationPlan::Explicit(list)
}

/// What follows a test allocation.
#[derive(Clone, Copy, Debug, PartialEq, Eq, Structural)]
pub enum AfterExport {
    /// The buffer can be shared: its modifier is taken.
    Take,
    /// Try once more without tiling, which always can be shared.
    TryLinear,
    /// There is no buffer that can be shared.
    Fail,
}

/// Decides what follows a test allocation among `offered` modifiers.
pub fn after_export(exported: bool, offered: usize) -> (r: AfterExport)
    ensures
        r == if exported {
            AfterExport::Take
        } else if offered > 1 {
            AfterExport::TryLinear
        } else {
            AfterExport::Fail
        },
{
    if exported {
        AfterExport::Take
    } else if offered > 1 {
        AfterExport::TryLinear
    } else {
        AfterExport::Fail
    }
}

/// The states of a stream.
#[derive(Clone, Copy, Debug, PartialEq, Eq, Structural)]
pub enum StreamState {
    Error,
    Unconnected,
    Connecting,
    Paused,
    Streaming,
}

/// What a reported format leads to.
#[derive(Clone, Copy, Debug, PartialEq, Eq, Structural)]
pub enum FormatCheck {
    /// It is of another size while a resize is under way: wait for the next.
    Wait,
    /// It is of a size that nobody asked for: the cast is over.
    Stop,
    /// It is of the expected size.
    Accept,
}

/// What pacing a frame leads to.
#[derive(Clone, Copy, Debug, PartialEq, Eq, Structural)]
pub struct FramePacing {
    /// The frame comes too soon and is left out.
    pub delayed: bool,
    /// A timer to be started with this delay, to draw it later.
    pub start: Option<Duration>,
    /// A timer that is not needed any more.
    pub cancel: Option<u64>,
}

/// A screen cast session
pub struct Cast {
    pub session_id: u64,
    pub is_active: bool,
    pub size: CastSize,
    pub node_id: Option<u32>,
    /// What this cast is capturing (output or window)
    pub target: CastTarget,
    pub state: CastState,
    /// Buffers that PipeWire has, by their file descriptors.
    pub buffers: Vec<i64>,
    /// Monotonic time of last frame capture
    pub last_frame_time: Duration,
    /// Minimum time between frames (set during format negotiation)
    pub min_time_between_frames: Duration,
    /// Flag indicating a fatal error occurred (e.g., signal emission failed)
    pub had_error: bool,
    /// Frame sequence counter
    pub sequence_counter: u64,
    /// Cursor mode: 0=Hidden, 1=Embedded, 2=Metadata
    pub cursor_mode: u32,
    /// Whether the stream uses alpha. True for window casts.
    pub alpha: bool,
    /// Modifiers for renegotiation on resize
    pub render_formats: Vec<i64>,
    /// Output refresh rate for renegotiation on resize
    pub refresh: u32,
    /// The refresh rate that the stream was made with, offered while a modifier is settled.
    pub first_refresh: u32,
    /// Timer for a scheduled redraw (cancelled on next frame or cast stop)
    pub scheduled_redraw: Option<u64>,
    /// Buffers awaiting GPU render completion.
    /// Stored oldest-first; completed buffers are queued back in order.
    pub rendering_buffers: Vec<u64>,
}

pub open spec fn cast_size(s: Size) -> CastSize {
    CastSize { w: s.w as u32, h: s.h as u32 }
}

fn to_cast_size(s: Size) -> (r: CastSize)
    ensures
        r == cast_size(s),
{
    CastSize {
        w: #[verifier::truncate]
        (s.w as u32),
        h: #[verifier::truncate]
        (s.h as u32),
    }
}

/// How long a frame at `target` has to wait after one at `last`, with `min` between them.
pub open spec fn extra_delay(last: nat, min: nat, target: nat) -> nat {
    if last == 0 || target < last || target - last >= min {
        0
    } else {
        (min - (target - last)) as nat
    }
}

/// The buffers up to the first one that is still being rendered.
pub open spec fn completed(reached: Seq<bool>) -> nat
    decreases reached.len(),
{
    if reached.len() == 0 || !reached[0] {
        0
    } else {
        1 + completed(reached.subrange(1, reached.len() as int))
    }
}

impl Cast {
    /// Create a new screen cast stream. Gives the formats to offer first.
    pub fn new(
        session_id: u64,
        size: Size,
        refresh: u32,
        target: CastTarget,
        alpha: bool,
        render_formats: Vec<i64>,
        cursor_mode: u32,
    ) -> (r: (Cast, VideoParams))
        ensures
            r.0.session_id == session_id,
            !r.0.is_active,
            !r.0.had_error,
            r.0.node_id is None,
            r.0.size == cast_size(size),
            r.0.state == (CastState::ResizePending { pending_size: cast_size(size) }),
            r.0.target == target,
            r.0.alpha == alpha,
            r.0.render_formats@ == render_formats@,
            r.0.cursor_mode == cursor_mode,
            r.0.refresh == refresh,
            r.0.first_refresh == refresh,
            r.0.buffers@.len() == 0,
            r.0.rendering_buffers@.len() == 0,
            r.0.last_frame_time@ == 0,
            r.0.min_time_between_frames@ == 0,
            r.0.sequence_counter == 0,
            r.0.scheduled_redraw is None,
            offers(r.1, cast_size(size), refresh, render_formats@, alpha),
    {
        let size = to_cast_size(size);
        let params = make_video_params(size, refresh, &render_formats, alpha);
        let cast = Cast {
            session_id,
            is_active: false,
            size,
            node_id: None,
            target,
            state: CastState::ResizePending { pending_size: size },
            buffers: Vec::new(),
            last_frame_time: Duration::zero(),
            min_time_between_frames: Duration::zero(),
            had_error: false,
            sequence_counter: 0,
            cursor_mode,
            alpha,
            render_formats,
            refresh,
            first_refresh: refresh,
            scheduled_redraw: None,
            rendering_buffers: Vec::new(),
        };
        (cast, params)
    }

    /// The stream changed its state. Gives the node number to announce, the first time that
    /// there is one.
    pub fn state_changed(&mut self, new_state: StreamState, node_id: u32) -> (r: Option<u32>)
        ensures
            r == if new_state == StreamState::Paused && old(self).node_id is None {
                Some(node_id)
            } else {
                None
            },
            *final(self) == (Cast {
                node_id: if r is Some {
                    r
                } else {
                    old(self).node_id
                },
                is_active: match new_state {
                    StreamState::Streaming => true,
                    StreamState::Paused => false,
                    StreamState::Error => false,
                    _ => old(self).is_active,
                },
                had_error: old(self).had_error || new_state == StreamState::Error,
                ..*old(self)
            }),
    {
        match new_state {
            StreamState::Paused => {
                self.is_active = false;
                if self.node_id.is_none() {
                    self.node_id = Some(node_id);
                    return Some(node_id);
                }
            },
            StreamState::Streaming => {
                self.is_active = true;
            },
            StreamState::Error => {
                self.is_active = false;
                self.had_error = true;
            },
            _ => {},
        }
        None
    }

    /// Something went wrong that the cast cannot go on from.
    pub fn fail(&mut self)
        ensures
            *final(self) == (Cast { had_error: true, ..*old(self) }),
    {
        self.had_error = true;
    }

    /// PipeWire reported a format of this size and highest frame rate.
    pub fn format_received(&mut self, size: CastSize, rate_num: u32, rate_denom: u32) -> (r:
        FormatCheck)
        ensures
            r == if size == old(self).state.expected() {
                FormatCheck::Accept
            } else if old(self).state is ResizePending {
                FormatCheck::Wait
            } else {
                FormatCheck::Stop
            },
            *final(self) == (Cast {
                had_error: old(self).had_error || r == FormatCheck::Stop,
                min_time_between_frames: final(self).min_time_between_frames,
                ..*old(self)
            }),
            final(self).min_time_between_frames@ == if r == FormatCheck::Accept && rate_num > 0 {
                ((1_000_000 * rate_denom) / rate_num as int * 1000) as nat
            } else {
                old(self).min_time_between_frames@
            },
            r != FormatCheck::Accept || rate_num == 0 ==> final(self).min_time_between_frames
                == old(self).min_time_between_frames,
    {
        if size != self.state.expected_format_size() {
            match self.state {
                CastState::ResizePending { .. } => {
                    return FormatCheck::Wait;
                },
                _ => {
                    self.had_error = true;
                    return FormatCheck::Stop;
                },
            }
        }
        if rate_num > 0 {
            let micros: u64 = 1_000_000 * (rate_denom as u64) / (rate_num as u64);
            self.min_time_between_frames = Duration::from_micros(micros);
        }
        FormatCheck::Accept
    }

    /// A modifier was chosen among those offered, or none could be. Gives the formats to offer
    /// now: the chosen one first, the others as fallback.
    pub fn fixate(&mut self, size: CastSize, chosen: Option<(u64, usize)>) -> (r: Option<
        (VideoParams, VideoParams),
    >)
        requires
            size == old(self).state.expected(),
        ensures
            final(self).state.expected() == old(self).state.expected(),
            match chosen {
                Some((modifier, planes)) => {
                    &&& *final(self) == (Cast {
                        state: CastState::ConfirmationPending {
                            size,
                            modifier,
                            plane_count: planes as i32,
                        },
                        ..*old(self)
                    })
                    &&& r matches Some((fixated, fallback))
                    &&& offers_one(
                        fixated,
                        size,
                        old(self).first_refresh,
                        modifier,
                        old(self).alpha,
                    )
                    &&& offers(
                        fallback,
                        size,
                        old(self).first_refresh,
                        old(self).render_formats@,
                        old(self).alpha,
                    )
                },
                None => *final(self) == (Cast { had_error: true, ..*old(self) }) && r is None,
            },
    {
        match chosen {
            Some((modifier, planes)) => {
                self.state = CastState::ConfirmationPending {
                    size,
                    modifier,
                    plane_count: #[verifier::truncate]
                    (planes as i32),
                };
                let fixated = make_video_params_fixated(
                    size,
                    self.first_refresh,
                    modifier,
                    self.alpha,
                );
                let fallback = make_video_params(
                    size,
                    self.first_refresh,
                    &self.render_formats,
                    self.alpha,
                );
                Some((fixated, fallback))
            },
            None => {
                self.had_error = true;
                None
            },
        }
    }

    /// The number of planes of a format that is being confirmed. `None` if the format is not the
    /// one that was chosen; it has to be tried then.
    pub fn confirmed_planes(&self, modifier: u64) -> (r: Option<i32>)
        ensures
            r == match self.state {
                CastState::ConfirmationPending { modifier: m, plane_count, .. } => if m
                    == modifier {
                    Some(plane_count)
                } else {
                    None
                },
                _ => None,
            },
    {
        match self.state {
            CastState::ConfirmationPending { modifier: m, plane_count, .. } => {
                if m == modifier {
                    Some(plane_count)
                } else {
                    None
                }
            },
            _ => None,
        }
    }

    /// The format is settled, if it has a number of planes. Gives the buffers to ask for.
    pub fn format_settled(&mut self, size: CastSize, modifier: u64, planes: Option<i32>) -> (r:
        Option<BufferParams>)
        requires
            size == old(self).state.expected(),
        ensures
            final(self).state.expected() == old(self).state.expected(),
            match planes {
                Some(plane_count) => {
                    &&& *final(self) == (Cast {
                        state: CastState::Ready { size, modifier, plane_count, last_cursor: None },
                        ..*old(self)
                    })
                    &&& r == Some(
                        (BufferParams {
                            default_count: 8,
                            min_count: 2,
                            max_count: 16,
                            blocks: plane_count,
                        }),
                    )
                },
                None => *final(self) == (Cast { had_error: true, ..*old(self) }) && r is None,
            },
    {
        match planes {
            Some(plane_count) => {
                self.state = CastState::Ready { size, modifier, plane_count, last_cursor: None };
                Some(buffer_params(plane_count))
            },
            None => {
                self.had_error = true;
                None
            },
        }
    }

    /// PipeWire wants memory for a buffer: its size and modifier. `None` before the format is
    /// settled.
    pub fn buffer_wanted(&self) -> (r: Option<(CastSize, u64)>)
        ensures
            r == match self.state {
                CastState::Ready { size, modifier, .. } => Some((size, modifier)),
                _ => None,
            },
    {
        match self.state {
            CastState::Ready { size, modifier, .. } => Some((size, modifier)),
            _ => None,
        }
    }

    /// PipeWire has a buffer with memory at this descriptor. Gives whether a redraw is forced:
    /// for the first buffer of a stream that runs, which means that its size changed.
    pub fn buffer_added(&mut self, fd: i64, streaming: bool) -> (r: bool)
        ensures
            *final(self) == (Cast { buffers: final(self).buffers, ..*old(self) }),
            final(self).buffers@ == if old(self).buffers@.contains(fd) {
                old(self).buffers@
            } else {
                old(self).buffers@.push(fd)
            },
            r == (final(self).buffers@.len() == 1 && streaming),
    {
        if !self.has_buffer(fd) {
            self.buffers.push(fd);
        }
        self.buffers.len() == 1 && streaming
    }

    /// Whether there is memory for the buffer at this descriptor.
    pub fn has_buffer(&self, fd: i64) -> (r: bool)
        ensures
            r == self.buffers@.contains(fd),
    {
        let mut i: usize = 0;
        while i < self.buffers.len()
            invariant
                i <= self.buffers@.len(),
                forall|j: int| 0 <= j < i ==> #[trigger] self.buffers@[j] != fd,
            decreases self.buffers@.len() - i,
        {
            if self.buffers[i] == fd {
                assert(self.buffers@[i as int] == fd);
                return true;
            }
            i = i + 1;
        }
        false
    }

    /// PipeWire gave up a buffer: it is not rendered to any more, and its memory is let go.
    pub fn buffer_removed(&mut self, buffer: u64, fd: Option<i64>)
        ensures
            *final(self) == (Cast {
                buffers: final(self).buffers,
                rendering_buffers: final(self).rendering_buffers,
                ..*old(self)
            }),
            final(self).rendering_buffers@ == without_number(
                old(self).rendering_buffers@,
                buffer,
            ),
            final(self).buffers@ == match fd {
                Some(f) => without_fd(old(self).buffers@, f),
                None => old(self).buffers@,
            },
    {
        let ghost before = self.rendering_buffers@;
        let mut kept: Vec<u64> = Vec::new();
        let mut i: usize = 0;
        assert(before.subrange(0, 0) =~= Seq::<u64>::empty());
        while i < self.rendering_buffers.len()
            invariant
                before == self.rendering_buffers@,
                i <= before.len(),
                kept@ == without_number(before.subrange(0, i as int), buffer),
            decreases before.len() - i,
        {
            assert(before.subrange(0, i + 1).drop_last() =~= before.subrange(0, i as int));
            if self.rendering_buffers[i] != buffer {
                kept.push(self.rendering_buffers[i]);
            }
            i = i + 1;
        }
        assert(before.subrange(0, i as int) =~= before);
        self.rendering_buffers = kept;
        match fd {
            Some(f) => {
                let ghost fds = self.buffers@;
                let mut left: Vec<i64> = Vec::new();
                let mut j: usize = 0;
                assert(fds.subrange(0, 0) =~= Seq::<i64>::empty());
                while j < self.buffers.len()
                    invariant
                        fds == self.buffers@,
                        j <= fds.len(),
                        left@ == without_fd(fds.subrange(0, j as int), f),
                    decreases fds.len() - j,
                {
                    assert(fds.subrange(0, j + 1).drop_last() =~= fds.subrange(0, j as int));
                    if self.buffers[j] != f {
                        left.push(self.buffers[j]);
                    }
                    j = j + 1;
                }
                assert(fds.subrange(0, j as int) =~= fds);
                self.buffers = left;
            },
            None => {},
        }
    }

    /// Check if the stream is actively streaming (and hasn't had a fatal error)
    pub fn is_streaming(&self) -> (r: bool)
        ensures
            r == (self.is_active && !self.had_error),
    {
        self.is_active && !self.had_error
    }

    /// Check if the stream has encountered a fatal error
    pub fn has_error(&self) -> (r: bool)
        ensures
            r == self.had_error,
    {
        self.had_error
    }

    /// Check if the cast is not yet ready to render
    pub fn is_resize_pending(&self) -> (r: bool)
        ensures
            r == !(self.state is Ready),
    {
        match self.state {
            CastState::Ready { .. } => false,
            _ => true,
        }
    }

    /// Handle size change by renegotiating with PipeWire: gives the formats to offer.
    pub fn ensure_size(&mut self, new_size: Size, refresh: u32) -> (r: Option<VideoParams>)
        ensures
            if old(self).state.expected() == cast_size(new_size) {
                *final(self) == *old(self) && r is None
            } else {
                &&& *final(self) == (Cast {
                    size: cast_size(new_size),
                    refresh,
                    state: CastState::ResizePending { pending_size: cast_size(new_size) },
                    ..*old(self)
                })
                &&& r is Some
                &&& offers(
                    r->0,
                    cast_size(new_size),
                    refresh,
                    old(self).render_formats@,
                    old(self).alpha,
                )
            },
    {
        let wanted = to_cast_size(new_size);
        let settled = match self.state {
            CastState::Ready { size, .. } => size == wanted,
            _ => false,
        };
        if settled {
            return None;
        }
        match self.state.pending_size() {
            Some(p) => {
                if p == wanted {
                    return None;
                }
            },
            None => {},
        }
        self.size = wanted;
        self.refresh = refresh;
        self.state = CastState::ResizePending { pending_size: wanted };
        Some(make_video_params(wanted, refresh, &self.render_formats, self.alpha))
    }

    /// Update the stream's refresh rate (renegotiate if changed).
    pub fn set_refresh(&mut self, refresh: u32) -> (r: Option<VideoParams>)
        ensures
            *final(self) == (Cast { refresh, ..*old(self) }),
            r is Some == (old(self).refresh != refresh),
            r matches Some(p) ==> offers(
                p,
                old(self).state.expected(),
                refresh,
                old(self).render_formats@,
                old(self).alpha,
            ),
    {
        if self.refresh == refresh {
            return None;
        }
        self.refresh = refresh;
        let size = self.state.expected_format_size();
        Some(make_video_params(size, refresh, &self.render_formats, self.alpha))
    }

    /// Compute extra delay needed before capturing next frame.
    pub fn compute_extra_delay(&self, target_frame_time: Duration) -> (r: Duration)
        ensures
            r@ == extra_delay(
                self.last_frame_time@,
                self.min_time_between_frames@,
                target_frame_time@,
            ),
    {
        let last = self.last_frame_time;
        let min = self.min_time_between_frames;
        if last.is_zero() {
            return Duration::zero();
        }
        if target_frame_time.less(&last) {
            return Duration::zero();
        }
        let diff = target_frame_time.minus(&last);
        if diff.less(&min) {
            return min.minus(&diff);
        }
        Duration::zero()
    }

    /// Returns the delay before the next frame can be captured.
    /// Zero means the frame can be captured now.
    pub fn frame_delay(&self, target_frame_time: Duration) -> (r: Duration)
        ensures
            r@ == {
                let d = extra_delay(
                    self.last_frame_time@,
                    self.min_time_between_frames@,
                    target_frame_time@,
                );
                if d < CAST_DELAY_ALLOWANCE {
                    0
                } else {
                    d
                }
            },
    {
        let delay = self.compute_extra_delay(target_frame_time);
        if delay.less(&Duration::from_nanos(CAST_DELAY_ALLOWANCE)) {
            Duration::zero()
        } else {
            delay
        }
    }

    /// Check frame timing and schedule a redraw if too early. `token` is the number for a timer,
    /// if one is started.
    pub fn check_time_and_schedule(
        &mut self,
        target_frame_time: Duration,
        now: Duration,
        token: u64,
    ) -> (r: FramePacing)
        requires
            target_frame_time@ + old(self).min_time_between_frames@ <= MAX_NANOS,
        ensures
            ({
                let d = extra_delay(
                    old(self).last_frame_time@,
                    old(self).min_time_between_frames@,
                    target_frame_time@,
                );
                let at = target_frame_time@ + d;
                if d < CAST_DELAY_ALLOWANCE {
                    &&& *final(self) == (Cast { scheduled_redraw: None, ..*old(self) })
                    &&& !r.delayed
                    &&& r.start is None
                    &&& r.cancel == old(self).scheduled_redraw
                } else {
                    &&& *final(self) == (Cast {
                        scheduled_redraw: if old(self).scheduled_redraw is Some {
                            old(self).scheduled_redraw
                        } else {
                            Some(token)
                        },
                        ..*old(self)
                    })
                    &&& r.delayed
                    &&& r.cancel is None
                    &&& (r.start is Some) == (old(self).scheduled_redraw is None)
                    &&& r.start is Some ==> r.start->0@ == if at > now@ {
                        at - now@
                    } else {
                        0
                    }
                }
            }),
    {
        let delay = self.compute_extra_delay(target_frame_time);
        if delay.less(&Duration::from_nanos(CAST_DELAY_ALLOWANCE)) {
            let cancel = self.scheduled_redraw;
            self.scheduled_redraw = None;
            FramePacing { delayed: false, start: None, cancel }
        } else {
            let start = if self.scheduled_redraw.is_some() {
                None
            } else {
                self.scheduled_redraw = Some(token);
                Some(target_frame_time.plus(&delay).saturating_sub(&now))
            };
            FramePacing { delayed: true, start, cancel: None }
        }
    }

    /// Whether a frame is drawn, given what changed on screen: only while the stream runs and its
    /// format is settled, and only if the content or the cursor changed. Gives the frame's size.
    pub fn frame_wanted(
        &mut self,
        cursor: Point,
        content_damage: bool,
        cursor_damage: bool,
    ) -> (r: Option<CastSize>)
        ensures
            match old(self).state {
                CastState::Ready { size, modifier, plane_count, last_cursor } => if old(
                    self,
                ).is_active && !old(self).had_error {
                    &&& *final(self) == (Cast {
                        state: CastState::Ready {
                            size,
                            modifier,
                            plane_count,
                            last_cursor: Some(cursor),
                        },
                        ..*old(self)
                    })
                    &&& r == if content_damage || cursor_damage || last_cursor != Some(cursor) {
                        Some(size)
                    } else {
                        None
                    }
                } else {
                    *final(self) == *old(self) && r is None
                },
                _ => *final(self) == *old(self) && r is None,
            },
    {
        if !self.is_streaming() {
            return None;
        }
        match self.state {
            CastState::Ready { size, modifier, plane_count, last_cursor } => {
                let moved = match last_cursor {
                    Some(p) => p != cursor,
                    None => true,
                };
                self.state = CastState::Ready {
                    size,
                    modifier,
                    plane_count,
                    last_cursor: Some(cursor),
                };
                if content_damage || cursor_damage || moved {
                    Some(size)
                } else {
                    None
                }
            },
            _ => None,
        }
    }

    /// A frame was rendered to the buffer and waits for the GPU. Gives the frame's number.
    pub fn frame_rendered(&mut self, buffer: u64) -> (r: u64)
        ensures
            *final(self) == (Cast {
                sequence_counter: r,
                rendering_buffers: final(self).rendering_buffers,
                ..*old(self)
            }),
            r == old(self).sequence_counter.wrapping_add(1),
            final(self).rendering_buffers@ == old(self).rendering_buffers@.push(buffer),
    {
        self.sequence_counter = self.sequence_counter.wrapping_add(1);
        self.rendering_buffers.push(buffer);
        self.sequence_counter
    }

    /// Takes out the buffers to be queued back to PipeWire: in order, up to the first one that
    /// the GPU is not done with. `reached` says for each buffer whether it is.
    pub fn queue_completed_buffers(&mut self, reached: &Vec<bool>) -> (r: Vec<u64>)
        requires
            reached@.len() == old(self).rendering_buffers@.len(),
        ensures
            *final(self) == (Cast {
                rendering_buffers: final(self).rendering_buffers,
                ..*old(self)
            }),
            completed(reached@) <= reached@.len(),
            r@ == old(self).rendering_buffers@.subrange(0, completed(reached@) as int),
            final(self).rendering_buffers@ == old(self).rendering_buffers@.subrange(
                completed(reached@) as int,
                reached@.len() as int,
            ),
    {
        let ghost before = self.rendering_buffers@;
        let n: usize = count_completed(reached);
        let mut done: Vec<u64> = Vec::new();
        let mut left: Vec<u64> = Vec::new();
        let mut i: usize = 0;
        while i < self.rendering_buffers.len()
            invariant
                before == self.rendering_buffers@,
                n <= before.len(),
                i <= before.len(),
                done@ == before.subrange(
                    0,
                    if i < n {
                        i as int
                    } else {
                        n as int
                    },
                ),
                left@ == if i < n {
                    Seq::empty()
                } else {
                    before.subrange(n as int, i as int)
                },
            decreases before.len() - i,
        {
            if i < n {
                done.push(self.rendering_buffers[i]);
                assert(done@ =~= before.subrange(0, i + 1));
                assert(i + 1 == n ==> before.subrange(n as int, n as int) =~= Seq::<u64>::empty());
            } else {
                left.push(self.rendering_buffers[i]);
                assert(left@ =~= before.subrange(n as int, i + 1));
            }
            i = i + 1;
        }
        self.rendering_buffers = left;
        done
    }
}

fn count_completed(reached: &Vec<bool>) -> (r: usize)
    ensures
        r == completed(reached@),
        r <= reached@.len(),
{
    let mut i: usize = 0;
    assert(reached@.subrange(0, reached@.len() as int) =~= reached@);
    while i < reached.len() && reached[i]
        invariant
            i <= reached@.len(),
            completed(reached@) == i + completed(
                reached@.subrange(i as int, reached@.len() as int),
            ),
        ensures
            i <= reached@.len(),
            completed(reached@) == i + completed(
                reached@.subrange(i as int, reached@.len() as int),
            ),
            i < reached@.len() ==> !reached@[i as int],
        decreases reached@.len() - i,
    {
        let ghost rest = reached@.subrange(i as int, reached@.len() as int);
        assert(rest.subrange(1, rest.len() as int) =~= reached@.subrange(
            i + 1,
            reached@.len() as int,
        ));
        i = i + 1;
    }
    i
}

/// The buffers without this one.
pub open spec fn without_number(s: Seq<u64>, n: u64) -> Seq<u64>
    decreases s.len(),
{
    if s.len() == 0 {
        Seq::empty()
    } else if s.last() == n {
        without_number(s.drop_last(), n)
    } else {
        without_number(s.drop_last(), n).push(s.last())
    }
}

/// The descriptors without this one.
pub open spec fn without_fd(s: Seq<i64>, n: i64) -> Seq<i64>
    decreases s.len(),
{
    if s.len() == 0 {
        Seq::empty()
    } else if s.last() == n {
        without_fd(s.drop_last(), n)
    } else {
        without_fd(s.drop_last(), n).push(s.last())
    }
}

/// Frames keep their distance: a frame that is not put off comes at the minimum time after the
/// last one, or less than the allowance sooner.
pub proof fn law_frames_keep_their_distance(last: nat, min: nat, target: nat)
    requires
        last > 0,
        target >= last,
        extra_delay(last, min, target) < CAST_DELAY_ALLOWANCE,
    ensures
        target + CAST_DELAY_ALLOWANCE > last + min,
{
}

/// Waiting for the delay is enough: after it the frame is due.
pub proof fn law_delay_is_enough(last: nat, min: nat, target: nat)
    ensures
        extra_delay(last, min, target + extra_delay(last, min, target)) == 0,
{
}

/// A frame comes before the first buffer that is still rendered, never after it.
pub proof fn law_completed_buffers_keep_order(reached: Seq<bool>, i: int)
    requires
        0 <= i < completed(reached),
    ensures
        completed(reached) <= reached.len(),
        reached[i],
    decreases reached.len(),
{
    let rest = reached.subrange(1, reached.len() as int);
    if i > 0 {
        law_completed_buffers_keep_order(rest, i - 1);
        assert(rest[i - 1] == reached[i]);
    } else {
        lemma_completed_bound(reached);
    }
}

proof fn lemma_completed_bound(reached: Seq<bool>)
    ensures
        completed(reached) <= reached.len(),
    decreases reached.len(),
{
    if reached.len() > 0 && reached[0] {
        lemma_completed_bound(reached.subrange(1, reached.len() as int));
    }
}

} // verus!
