//! Screen cast streams: formats, buffers and pacing.
use ewm::dbus::CastTarget;
use ewm::ewm::casts::{cast_modifiers, FORMAT_ARGB8888, FORMAT_XRGB8888};
use ewm::geometry::{Point, Size};
use ewm::pipewire::stream::{
    after_export, allocation_plan, buffer_params, AfterExport, AllocationPlan, Cast, CastSize,
    CastState, FormatCheck, StreamState, VideoFormat, MODIFIER_INVALID,
};
use ewm::pipewire::{is_fatal_error, PipeWire, CONNECTION_LOST, PW_ID_CORE};
use ewm::time::Duration;

const HD: Size = Size { w: 1920, h: 1080 };
const HD_CAST: CastSize = CastSize { w: 1920, h: 1080 };

fn cast() -> Cast {
    Cast::new(4, HD, 60, CastTarget::Window { id: 1 }, true, vec![3, 0], 1).0
}

fn ready() -> Cast {
    let mut c = cast();
    assert_eq!(c.format_received(HD_CAST, 60, 1), FormatCheck::Accept);
    c.fixate(HD_CAST, Some((3, 1))).unwrap();
    assert_eq!(c.confirmed_planes(3), Some(1));
    assert_eq!(c.confirmed_planes(0), None);
    c.format_settled(HD_CAST, 3, Some(1)).unwrap();
    c.state_changed(StreamState::Streaming, 9);
    c
}

#[test]
fn first_offer() {
    let (c, params) = Cast::new(4, HD, 60, CastTarget::Window { id: 1 }, true, vec![3, 0], 1);
    assert_eq!(params.format, VideoFormat::Bgra);
    assert_eq!(params.modifier, 3);
    assert_eq!(params.alternatives, vec![3, 0]);
    assert!(params.dont_fixate);
    assert_eq!(params.max_framerate, 60);
    assert!(c.is_resize_pending());
    assert!(!c.is_streaming());
    let target = CastTarget::Output { name: "DP-1".to_string() };
    let (_, params) = Cast::new(4, HD, 60, target, false, vec![], 1);
    assert_eq!(params.format, VideoFormat::Bgrx);
    assert_eq!(params.modifier, 0);
    assert!(!params.dont_fixate);
}

#[test]
fn stream_states() {
    let mut c = cast();
    assert_eq!(c.state_changed(StreamState::Connecting, 9), None);
    assert_eq!(c.state_changed(StreamState::Paused, 9), Some(9));
    assert_eq!(c.state_changed(StreamState::Paused, 10), None);
    assert_eq!(c.state_changed(StreamState::Streaming, 10), None);
    assert!(c.is_streaming());
    c.state_changed(StreamState::Error, 10);
    assert!(c.has_error());
    assert!(!c.is_streaming());
}

#[test]
fn formats_of_the_wrong_size() {
    let other = CastSize { w: 1, h: 1 };
    let mut c = cast();
    assert_eq!(c.format_received(other, 60, 1), FormatCheck::Wait);
    assert!(!c.has_error());
    let mut r = ready();
    assert_eq!(r.format_received(other, 60, 1), FormatCheck::Stop);
    assert!(r.has_error());
    let mut f = cast();
    assert!(f.fixate(HD_CAST, None).is_none());
    assert!(f.has_error());
}

#[test]
fn negotiation_ends_ready() {
    let r = ready();
    assert!(matches!(r.state, CastState::Ready { size: HD_CAST, modifier: 3, .. }));
    assert_eq!(r.buffer_wanted(), Some((HD_CAST, 3)));
    assert_eq!(r.min_time_between_frames.as_nanos(), 16_666_000);
    let b = buffer_params(2);
    assert_eq!((b.default_count, b.min_count, b.max_count, b.blocks), (8, 2, 16, 2));
}

#[test]
fn sizes_and_rates_change() {
    let mut r = ready();
    assert!(r.ensure_size(HD, 60).is_none());
    let offer = r.ensure_size(Size { w: 800, h: 600 }, 75).unwrap();
    assert_eq!(offer.size, CastSize { w: 800, h: 600 });
    assert_eq!(offer.max_framerate, 75);
    assert!(r.is_resize_pending());
    assert!(r.ensure_size(Size { w: 800, h: 600 }, 75).is_none());
    assert!(r.set_refresh(75).is_none());
    assert_eq!(r.set_refresh(50).unwrap().max_framerate, 50);
}

#[test]
fn buffers_come_and_go() {
    let mut r = ready();
    assert!(r.buffer_added(11, true));
    assert!(!r.buffer_added(12, true));
    assert!(r.has_buffer(11));
    r.buffer_removed(1, Some(11));
    assert!(!r.has_buffer(11));
    assert!(r.has_buffer(12));
}

#[test]
fn frames_keep_their_distance() {
    let mut r = ready();
    r.last_frame_time = Duration::from_millis(100);
    let early = Duration::from_millis(105);
    assert_eq!(r.compute_extra_delay(early).as_nanos(), 11_666_000);
    assert_eq!(r.frame_delay(Duration::from_nanos(116_600_000)).as_nanos(), 0);
    assert_eq!(r.compute_extra_delay(Duration::from_millis(90)).as_nanos(), 0);
    let pacing = r.check_time_and_schedule(early, Duration::from_millis(101), 8);
    assert!(pacing.delayed);
    assert_eq!(pacing.start.unwrap().as_nanos(), 15_666_000);
    let again = r.check_time_and_schedule(early, Duration::from_millis(101), 9);
    assert!(again.delayed);
    assert!(again.start.is_none());
    let due = r.check_time_and_schedule(Duration::from_millis(120), Duration::from_millis(119), 9);
    assert!(!due.delayed);
    assert_eq!(due.cancel, Some(8));
}

#[test]
fn frames_need_damage() {
    let mut r = ready();
    let at = Point { x: 3, y: 4 };
    assert_eq!(r.frame_wanted(at, true, false), Some(HD_CAST));
    assert_eq!(r.frame_wanted(at, false, false), None);
    assert_eq!(cast().frame_wanted(at, true, false), None);
}

#[test]
fn completed_buffers_keep_their_order() {
    let mut r = ready();
    assert_eq!(r.frame_rendered(21), 1);
    assert_eq!(r.frame_rendered(22), 2);
    assert_eq!(r.frame_rendered(23), 3);
    assert_eq!(r.queue_completed_buffers(&vec![true, false, true]), vec![21]);
    assert_eq!(r.queue_completed_buffers(&vec![true, true]), vec![22, 23]);
    assert!(r.rendering_buffers.is_empty());
}

#[test]
fn modifiers_and_allocation() {
    assert!(matches!(
        allocation_plan(&vec![MODIFIER_INVALID as i64]),
        AllocationPlan::Implicit
    ));
    match allocation_plan(&vec![5, MODIFIER_INVALID as i64, 0]) {
        AllocationPlan::Explicit(m) => assert_eq!(m, vec![5, 0]),
        _ => panic!("explicit"),
    }
    assert_eq!(after_export(true, 2), AfterExport::Take);
    assert_eq!(after_export(false, 2), AfterExport::TryLinear);
    assert_eq!(after_export(false, 1), AfterExport::Fail);
    let formats = vec![(FORMAT_ARGB8888, 9), (FORMAT_XRGB8888, 2), (FORMAT_ARGB8888, 4)];
    assert_eq!(cast_modifiers(Some(&formats), true), vec![9, 4]);
    assert_eq!(cast_modifiers(Some(&formats), false), vec![2]);
}

#[test]
fn lost_connections_are_fatal() {
    assert!(is_fatal_error(PW_ID_CORE, CONNECTION_LOST));
    assert!(!is_fatal_error(1, CONNECTION_LOST));
    assert!(!is_fatal_error(PW_ID_CORE, -2));
    let mut p = PipeWire::new();
    assert!(!p.report(1, CONNECTION_LOST));
    assert!(!p.has_fatal_error());
    assert!(p.report(PW_ID_CORE, CONNECTION_LOST));
    assert!(p.has_fatal_error());
}
