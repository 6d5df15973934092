//! Display modes, transforms, gamma, redraw states, input devices and geometry.
use ewm::backend::drm::{
    fallback_formats, preferred_drm_mode, refresh_interval, resolve_drm_mode, scanout_formats,
    select_mode, DrmMode,
};
use ewm::backend::{int_to_transform, transform_to_int, Transform};
use ewm::ewm::popups::{padded_target, unconstrain_with_padding, Adjustments, Edges, Positioner};
use ewm::gamma::{
    gamma_lut, get_gamma_size, legacy_gamma, resume_gamma, set_gamma, GammaAction, GammaError,
    GammaProps,
};
use ewm::geometry::{fullscreen_center_offset, Point, Rect, Size};
use ewm::input::{
    apply_libinput_settings, detect_device_type, resolve_settings, AccelProfile, DeviceDefaults,
    DeviceTraits, DeviceType, InputConfigEntry, ScrollMethod,
};
use ewm::redraw::{
    presentation_time, should_send_frame_callback, AfterVBlank, OutputState, RedrawState,
};
use ewm::time::Duration;

fn mode(width: u16, height: u16, clock: u32, htotal: u16, vtotal: u16, preferred: bool) -> DrmMode {
    DrmMode {
        width,
        height,
        clock,
        htotal,
        vtotal,
        vscan: 0,
        interlace: false,
        dblscan: false,
        preferred,
    }
}

fn hd60() -> DrmMode {
    mode(1920, 1080, 148_500, 2200, 1125, true)
}

fn hd50() -> DrmMode {
    mode(1920, 1080, 148_500, 2640, 1125, false)
}

#[test]
fn refresh_rates_of_modes() {
    assert_eq!(hd60().refresh(), 60_000);
    assert_eq!(hd50().refresh(), 50_000);
    let mut interlaced = hd60();
    interlaced.interlace = true;
    assert_eq!(interlaced.refresh(), 120_000);
    let mut doubled = hd60();
    doubled.dblscan = true;
    assert_eq!(doubled.refresh(), 30_000);
    let mut scanned = hd60();
    scanned.vscan = 3;
    assert_eq!(scanned.refresh(), 20_000);
}

#[test]
fn precise_refresh_interval() {
    assert_eq!(refresh_interval(&hd60()).as_nanos(), 16_666_667);
    let mut unknown = hd60();
    unknown.clock = 0;
    assert_eq!(refresh_interval(&unknown).as_nanos(), 16_667_000);
    let mut interlaced = hd60();
    interlaced.interlace = true;
    assert_eq!(refresh_interval(&interlaced).as_nanos(), 8_333_333);
}

#[test]
fn mode_without_timing_needs_no_arithmetic() {
    let mut huge = mode(1, 1, 0, u16::MAX, u16::MAX, false);
    huge.vscan = u16::MAX;
    huge.dblscan = true;
    assert_eq!(refresh_interval(&huge).as_nanos(), 16_667_000);
    assert!(huge.is_usable());
    huge.clock = 1;
    assert!(!huge.is_usable());
}

#[test]
fn compressed_formats_are_left_out() {
    let linear = 0;
    let invalid = 0x00ff_ffff_ffff_ffff;
    let y_tiled = 0x0100_0000_0000_0002;
    let all = vec![
        (1, linear),
        (1, 0x0100_0000_0000_0004),
        (2, invalid),
        (1, 0x0100_0000_0000_0006),
        (1, y_tiled),
        (2, 0x0100_0000_0000_0007),
        (1, invalid),
    ];
    let kept = scanout_formats(&all);
    assert_eq!(kept, vec![(1, linear), (2, invalid), (1, y_tiled), (1, invalid)]);
    assert_eq!(fallback_formats(&kept), vec![(2, invalid), (1, invalid)]);
    assert!(scanout_formats(&vec![]).is_empty());
}

#[test]
fn modes_are_resolved() {
    let modes = vec![hd50(), hd60(), mode(1280, 720, 74_250, 1650, 750, false)];
    assert_eq!(resolve_drm_mode(&modes, 1920, 1080, None), Some(hd60()));
    assert_eq!(resolve_drm_mode(&modes, 1920, 1080, Some(50)), Some(hd50()));
    assert_eq!(resolve_drm_mode(&modes, 1920, 1080, Some(75)), None);
    assert_eq!(resolve_drm_mode(&modes, 800, 600, None), None);
    assert_eq!(preferred_drm_mode(&modes), Some(hd60()));
    assert_eq!(preferred_drm_mode(&vec![hd50()]), Some(hd50()));
    assert_eq!(preferred_drm_mode(&vec![]), None);
    assert_eq!(select_mode(&modes, Some((1920, 1080, Some(50)))), Some(hd50()));
    assert_eq!(select_mode(&modes, Some((1, 1, None))), Some(hd60()));
    assert_eq!(select_mode(&modes, None), Some(hd60()));
}

#[test]
fn transforms_round_trip() {
    for n in 0..8i32 {
        assert_eq!(transform_to_int(int_to_transform(n)), n);
    }
    assert_eq!(int_to_transform(1), Transform::Rotated90);
    assert_eq!(int_to_transform(8), Transform::Normal);
    assert_eq!(int_to_transform(-1), Transform::Normal);
}

#[test]
fn gamma_tables_hold_rows() {
    let ramp: Vec<u16> = vec![1, 0x0203, 4, 5, 6, 7];
    let bytes = gamma_lut(&ramp, 2).unwrap();
    let values: Vec<u16> =
        bytes.chunks(2).map(|c| u16::from_ne_bytes([c[0], c[1]])).collect();
    assert_eq!(values, vec![1, 4, 6, 0, 0x0203, 5, 7, 0]);
    assert_eq!(
        gamma_lut(&ramp, 3),
        Err(GammaError::WrongLength { got: 6, expected: 9 })
    );
}

#[test]
fn gamma_ramps_without_tables() {
    let (r, g, b) = legacy_gamma(3, None).unwrap();
    assert_eq!(r, vec![0, 0x7fff, 0xffff]);
    assert_eq!(g, r);
    assert_eq!(b, r);
    let (r, g, b) = legacy_gamma(1, Some(&vec![7, 8, 9])).unwrap();
    assert_eq!((r, g, b), (vec![7], vec![8], vec![9]));
    assert_eq!(legacy_gamma(0, None), Err(GammaError::ZeroLength));
    assert_eq!(
        legacy_gamma(2, Some(&vec![1])),
        Err(GammaError::WrongLength { got: 1, expected: 6 })
    );
    assert_eq!(get_gamma_size(0), None);
    assert_eq!(get_gamma_size(256), Some(256));
}

#[test]
fn gamma_tables_do_not_leak() {
    let mut p = GammaProps { previous_blob: Some(4) };
    assert_eq!(p.blob_set(Some(9), false), Some(9));
    assert_eq!(p.restore_gamma(), 4);
    assert_eq!(p.blob_set(Some(9), true), Some(4));
    assert_eq!(p.restore_gamma(), 9);
    assert_eq!(p.blob_set(None, true), Some(9));
    assert_eq!(p.restore_gamma(), 0);
    assert_eq!(GammaProps::blob_id(None), 0);
}

#[test]
fn gamma_waits_for_the_session() {
    let mut pending: Option<Option<Vec<u16>>> = None;
    assert!(matches!(set_gamma(&mut pending, false, true, Some(vec![1])), GammaAction::Keep));
    assert!(matches!(set_gamma(&mut pending, false, true, None), GammaAction::Keep));
    match resume_gamma(&mut pending, true) {
        GammaAction::Apply { ramp, through_table } => {
            assert_eq!(ramp, None);
            assert!(through_table);
        }
        _ => panic!("the kept change is applied"),
    }
    assert!(matches!(resume_gamma(&mut pending, true), GammaAction::Restore));
    assert!(matches!(resume_gamma(&mut pending, false), GammaAction::Keep));
    assert!(matches!(
        set_gamma(&mut pending, true, false, Some(vec![1])),
        GammaAction::Apply { through_table: false, .. }
    ));
    assert!(pending.is_none());
}

fn state() -> OutputState {
    OutputState::new(Some(Duration::from_millis(16)), Size { w: 800, h: 600 })
}

#[test]
fn redraw_cycle_with_vblank() {
    let mut st = state();
    assert_eq!(st.redraw_state, RedrawState::Queued);
    assert_eq!(st.frame_queued(), None);
    assert_eq!(st.redraw_state, RedrawState::WaitingForVBlank { redraw_needed: false });
    st.redraw_state = st.redraw_state.queue_redraw();
    assert_eq!(st.redraw_state, RedrawState::WaitingForVBlank { redraw_needed: true });
    assert_eq!(st.vblank(Duration::from_millis(100)), AfterVBlank::Redraw);
    assert_eq!(st.redraw_state, RedrawState::Idle);
    st.redraw_state = RedrawState::WaitingForVBlank { redraw_needed: false };
    assert_eq!(st.vblank(Duration::from_millis(116)), AfterVBlank::FrameCallbacks);
}

#[test]
fn redraw_cycle_with_estimated_vblank() {
    let mut st = state();
    let now = Duration::from_millis(100);
    let start = st.wait_for_estimated_vblank(Duration::from_millis(107), now, 5);
    assert_eq!(start.unwrap().as_nanos(), 7_000_000);
    assert_eq!(st.redraw_state, RedrawState::WaitingForEstimatedVBlank(5));
    st.redraw_state = st.redraw_state.queue_redraw();
    assert_eq!(st.redraw_state, RedrawState::WaitingForEstimatedVBlankAndQueued(5));
    assert!(st.wait_for_estimated_vblank(now, now, 6).is_none());
    assert_eq!(st.redraw_state, RedrawState::WaitingForEstimatedVBlank(5));
    assert_eq!(st.estimated_vblank_fired(), AfterVBlank::FrameCallbacks);
    assert_eq!(st.redraw_state, RedrawState::Idle);
    assert_eq!(st.frame_callback_sequence, 1);
    st.redraw_state = RedrawState::Queued;
    assert_eq!(st.wait_for_estimated_vblank(now, now, 6).unwrap().as_nanos(), 16_000_000);
}

#[test]
fn redraw_requests_are_idempotent() {
    for s in [
        RedrawState::Idle,
        RedrawState::Queued,
        RedrawState::WaitingForVBlank { redraw_needed: false },
        RedrawState::WaitingForEstimatedVBlank(3),
        RedrawState::WaitingForEstimatedVBlankAndQueued(3),
    ] {
        assert_eq!(s.queue_redraw().queue_redraw(), s.queue_redraw());
    }
    assert_eq!(RedrawState::WaitingForEstimatedVBlank(3).timer_token(), Some(3));
    assert_eq!(RedrawState::Idle.to_text(), "Idle");
}

#[test]
fn frame_callbacks_once_per_cycle() {
    let mut last = None;
    assert!(should_send_frame_callback(Some(1), 1, 7, &mut last));
    assert!(!should_send_frame_callback(Some(1), 1, 7, &mut last));
    assert!(should_send_frame_callback(Some(1), 1, 8, &mut last));
    assert!(!should_send_frame_callback(Some(2), 1, 9, &mut last));
    assert!(!should_send_frame_callback(None, 1, 9, &mut last));
    assert_eq!(last, Some((1, 8)));
    let now = Duration::from_secs(5);
    assert_eq!(presentation_time(None, now), now);
    assert_eq!(presentation_time(Some(Duration::zero()), now), now);
    let t = Duration::from_secs(4);
    assert_eq!(presentation_time(Some(t), now), t);
}

fn entry() -> InputConfigEntry {
    InputConfigEntry {
        device: None,
        device_type: None,
        natural_scroll: None,
        tap: None,
        dwt: None,
        accel_speed: None,
        accel_profile: None,
        click_method: None,
        scroll_method: None,
        left_handed: None,
        middle_emulation: None,
        tap_button_map: None,
        repeat_delay: None,
        repeat_rate: None,
        xkb_layouts: None,
        xkb_options: None,
    }
}

fn defaults() -> DeviceDefaults {
    DeviceDefaults {
        natural_scroll: false,
        accel_speed: 0,
        left_handed: false,
        middle_emulation: false,
        accel_profile: Some(AccelProfile::Adaptive),
        scroll_method: Some(ScrollMethod::TwoFinger),
        tap: false,
        dwt: true,
        click_method: None,
        tap_button_map: None,
    }
}

fn traits(fingers: u32, ball: bool, point: bool, pointer: bool) -> DeviceTraits {
    DeviceTraits {
        tap_finger_count: fingers,
        is_trackball: ball,
        is_trackpoint: point,
        is_pointer: pointer,
    }
}

#[test]
fn devices_are_told_apart() {
    assert_eq!(detect_device_type(&traits(3, true, false, true)), Some(DeviceType::Touchpad));
    assert_eq!(detect_device_type(&traits(0, true, false, true)), Some(DeviceType::Trackball));
    assert_eq!(detect_device_type(&traits(0, false, true, true)), Some(DeviceType::Trackpoint));
    assert_eq!(detect_device_type(&traits(0, false, false, true)), Some(DeviceType::Mouse));
    assert_eq!(detect_device_type(&traits(0, false, false, false)), None);
}

#[test]
fn device_settings_cascade() {
    let mut by_type = entry();
    by_type.device_type = Some(DeviceType::Touchpad);
    by_type.tap = Some(true);
    by_type.natural_scroll = Some(true);
    let mut by_name = entry();
    by_name.device = Some("pad".to_string());
    by_name.natural_scroll = Some(false);
    let configs = vec![by_type, by_name];
    let s = resolve_settings(DeviceType::Touchpad, "pad", &configs, &defaults());
    assert!(!s.natural_scroll);
    assert!(s.touchpad.unwrap().tap);
    assert!(s.touchpad.unwrap().dwt);
    assert_eq!(s.accel_profile, Some(AccelProfile::Adaptive));
    let other = resolve_settings(DeviceType::Touchpad, "other", &configs, &defaults());
    assert!(other.natural_scroll);
    let mouse = apply_libinput_settings(&traits(0, false, false, true), "m", &configs, &defaults());
    assert!(!mouse.unwrap().natural_scroll);
    assert!(mouse.unwrap().touchpad.is_none());
    assert!(apply_libinput_settings(&traits(0, false, false, false), "k", &configs, &defaults())
        .is_none());
}

fn rect(x: i32, y: i32, w: i32, h: i32) -> Rect {
    Rect { loc: Point { x, y }, size: Size { w, h } }
}

#[test]
fn geometry_of_windows_and_popups() {
    let s = |w: i32, h: i32| Size { w, h };
    assert_eq!(fullscreen_center_offset(s(800, 600), s(1920, 1080)), (560, 240));
    assert_eq!(fullscreen_center_offset(s(1920, 2000), s(1920, 1080)), (0, 0));
    let r = rect(10, 10, 5, 5);
    assert!(r.contains(Point { x: 10, y: 14 }));
    assert!(!r.contains(Point { x: 15, y: 10 }));
    assert!(rect(0, 0, 20, 20).contains_rect(r));
    assert!(!r.contains_rect(rect(0, 0, 20, 20)));
    assert_eq!(padded_target(rect(0, 0, 100, 10)), rect(8, 0, 84, 10));
    assert_eq!(padded_target(rect(0, 0, 16, 17)), rect(0, 8, 16, 1));
}

fn positioner(size: Size) -> Positioner {
    Positioner {
        size,
        anchor_rect: rect(0, 0, 10, 10),
        anchor: Edges::BottomLeft,
        gravity: Edges::BottomRight,
        adjustments: Adjustments {
            slide_x: true,
            slide_y: true,
            flip_x: false,
            flip_y: false,
            resize_x: true,
            resize_y: true,
        },
        offset: Point { x: 0, y: 0 },
    }
}

#[test]
fn popups_are_padded_where_they_fit() {
    // Places a popup at the corner of its target, cut to it where it may be resized.
    let place = |p: Positioner, t: Rect| {
        let w = if p.adjustments.resize_x { p.size.w.min(t.size.w) } else { p.size.w };
        let h = if p.adjustments.resize_y { p.size.h.min(t.size.h) } else { p.size.h };
        rect(t.loc.x, t.loc.y, w, h)
    };
    let s = |w: i32, h: i32| Size { w, h };
    let small = positioner(s(20, 20));
    assert_eq!(unconstrain_with_padding(&small, rect(0, 0, 50, 50), &place), rect(8, 8, 20, 20));
    let wide = positioner(s(45, 20));
    assert_eq!(unconstrain_with_padding(&wide, rect(0, 0, 50, 50), &place), rect(0, 0, 45, 20));
    let huge = positioner(s(90, 20));
    assert_eq!(unconstrain_with_padding(&huge, rect(0, 0, 50, 50), &place), rect(0, 0, 50, 20));
    assert_eq!(unconstrain_with_padding(&small, rect(3, 3, 16, 16), &place), rect(3, 3, 16, 16));
}
