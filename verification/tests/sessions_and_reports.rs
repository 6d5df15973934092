//! Display sessions, reports to other programs, popups, and casts of what is shown.
use ewm::backend::drm::DrmMode;
use ewm::backend::drm_state::{ConnectorInfo, DrmBackendState, FrameOutcome};
use ewm::backend::headless::HeadlessBackend;
use ewm::backend::{Backend, RenderResult, Transform};
use ewm::dbus::CastTarget;
use ewm::effect::{Effect, FocusTarget};
use ewm::event::Event;
use ewm::ewm::casts::CastPlan;
use ewm::ewm::commands::{BatchStep, CommandBatch};
use ewm::ewm::layers::{interactivity_name, LayerPlace};
use ewm::ewm::outputs::CurrentOutput;
use ewm::ewm::surfaces::layer_name;
use ewm::ewm::{Ewm, IdleAction, KeyboardInteractivity, Layer, LockState};
use ewm::geometry::{Point, Rect, Size};
use ewm::keys::KeyboardAction;
use ewm::layout::LayoutEntry;
use ewm::module::{ModuleCommand, PendingFrameOutputs};
use ewm::pipewire::stream::{Cast, CastSize, CastState, StreamState};
use ewm::redraw::{LockRenderState, RedrawState};
use ewm::time::Duration;

fn at(ms: u64) -> Duration {
    Duration::from_millis(1_000_000 + ms)
}

fn name(n: &str) -> String {
    n.to_string()
}

fn rect(x: i32, y: i32, w: i32, h: i32) -> Rect {
    Rect { loc: Point { x, y }, size: Size { w, h } }
}

fn start() -> (Ewm, HeadlessBackend) {
    let mut e = Ewm::new(at(0));
    let mut b = HeadlessBackend::new();
    b.add_output(&name("A"), 800, 600, Size { w: 800, h: 600 }, &mut e);
    b.add_output(&name("B"), 1024, 768, Size { w: 1024, h: 768 }, &mut e);
    b.redraw_queued_outputs(&mut e);
    e.take_effects();
    (e, b)
}

fn window(e: &mut Ewm, app: &str) -> u64 {
    let mut pending = PendingFrameOutputs::pending_frame_outputs();
    e.handle_new_toplevel(name(app), Some(5), &mut pending)
}

fn show(e: &mut Ewm, output: &str, entries: Vec<LayoutEntry>) {
    e.apply_output_layout(&name(output), entries);
    e.take_effects();
}

fn entry(id: u64, x: i32, y: i32, w: u32, h: u32, focused: bool) -> LayoutEntry {
    LayoutEntry { id, x, y, w, h, focused, primary: false, fullscreen: false }
}

fn hd() -> DrmMode {
    DrmMode {
        width: 1920,
        height: 1080,
        clock: 148_500,
        htotal: 2200,
        vtotal: 1125,
        vscan: 0,
        interlace: false,
        dblscan: false,
        preferred: true,
    }
}

fn current() -> CurrentOutput {
    CurrentOutput {
        mode_size: Size { w: 1920, h: 1080 },
        refresh: 60_000,
        scale_120: 120,
        transform: Transform::Normal,
        size: Size { w: 1920, h: 1080 },
        zone: rect(0, 0, 1920, 1080),
    }
}

/// A device that drives the named displays, the first with controller 1.
fn displays(names: &[&str]) -> (Ewm, DrmBackendState) {
    let mut e = Ewm::new(at(0));
    let mut d = DrmBackendState::new(true);
    assert!(d.begin_init());
    d.device_opened();
    let mut crtc = 1;
    for n in names {
        let c = ConnectorInfo {
            name: name(n),
            modes: vec![hd()],
            size_mm: Some((500, 300)),
            make: None,
            model: None,
        };
        d.connect_output(&mut e, crtc, &c, &hd(), &current());
        crtc += 1;
    }
    e.take_effects();
    (e, d)
}

fn redraw_state(e: &Ewm, n: &str) -> RedrawState {
    e.output_state.get(n).unwrap().redraw_state
}

fn events(e: &mut Ewm) -> Vec<Event> {
    let mut out = Vec::new();
    for effect in e.take_effects() {
        if let Effect::Event(ev) = effect {
            out.push(ev);
        }
    }
    out
}

#[test]
fn start_is_told_after_the_outputs() {
    let (mut e, d) = displays(&["DP-1"]);
    d.init_complete(&mut e);
    let told = events(&mut e);
    assert_eq!(told.len(), 2);
    assert!(matches!(told[0], Event::OutputsComplete));
    assert!(matches!(told[1], Event::Ready));
}

#[test]
fn errors_end_the_wait_for_a_vblank() {
    let (mut e, d) = displays(&["DP-1", "DP-2"]);
    let n = name("DP-1");
    d.frame_done(&mut e, &n, FrameOutcome::Queued, at(16), at(1));
    assert!(matches!(redraw_state(&e, "DP-1"), RedrawState::WaitingForVBlank { .. }));
    assert!(!d.has_queued_redraws(&e) || redraw_state(&e, "DP-2") == RedrawState::Queued);
    d.recover_from_error(&mut e);
    assert_eq!(redraw_state(&e, "DP-1"), RedrawState::Queued);
}

#[test]
fn resuming_wakes_and_redraws() {
    let (mut e, mut d) = displays(&["DP-1"]);
    d.frame_done(&mut e, &name("DP-1"), FrameOutcome::Queued, at(16), at(1));
    d.process_vblank(&mut e, 1, Some(at(16)), 1, at(16));
    d.pause(&mut e);
    e.deactivate_monitors();
    e.take_effects();
    d.session_activated();
    d.resume(&mut e, at(50));
    assert!(e.monitors_active);
    assert_eq!(redraw_state(&e, "DP-1"), RedrawState::Queued);
    assert!(matches!(events(&mut e).last(), Some(Event::OutputsComplete)));
}

#[test]
fn plugged_displays_are_sorted_out() {
    let (mut e, mut d) = displays(&["DP-1", "DP-2"]);
    let added = vec![(name("DP-3"), 7), (name("DP-2"), 2), (name("DP-4"), 8)];
    assert_eq!(d.on_device_changed(&mut e, &added, &vec![1]), vec![0, 2]);
    assert!(!e.output_state.contains("DP-1"));
    assert!(e.output_state.contains("DP-2"));
    e.take_effects();
    d.topology_settled(&mut e, false);
    assert!(events(&mut e).is_empty());
    d.topology_settled(&mut e, true);
    assert!(matches!(events(&mut e)[0], Event::OutputsComplete));
    d.pause(&mut e);
    assert!(d.on_device_changed(&mut e, &added, &vec![2]).is_empty());
    assert!(e.output_state.contains("DP-2"));
}

#[test]
fn opening_the_lid_wakes_the_session() {
    let (mut e, mut d) = displays(&["eDP-1"]);
    d.handle_lid_state(&mut e, true);
    e.deactivate_monitors();
    e.take_effects();
    d.handle_lid_state(&mut e, false);
    e.output_heads_changed = false;
    d.lid_opened(&mut e, at(9));
    assert!(e.monitors_active);
    assert!(e.output_heads_changed);
    assert!(matches!(events(&mut e).last(), Some(Event::OutputsComplete)));
}

#[test]
fn taken_configuration_is_noted() {
    let (mut e, d) = displays(&["DP-1"]);
    let mut cur = current();
    cur.scale_120 = 240;
    cur.size = Size { w: 960, h: 540 };
    cur.zone = rect(0, 0, 960, 540);
    d.output_config_applied(&mut e, &name("DP-1"), Some(hd()), Some((100, 50)), &cur);
    assert_eq!(e.space.get("DP-1").unwrap().geo, rect(100, 50, 960, 540));
    assert_eq!(e.outputs[0].scale_120, 240);
    assert!(events(&mut e).iter().any(|ev| matches!(
        ev,
        Event::OutputConfigChanged { x: 100, y: 50, scale_120: 240, refresh: 60_000, .. }
    )));
}

#[test]
fn backends_are_told_apart() {
    let (e, d) = displays(&["DP-1"]);
    let mut drm = Backend::Drm(d);
    assert!(drm.has_queued_redraws(&e));
    assert!(drm.as_headless_mut().is_none());
    assert!(drm.as_drm_mut().unwrap().session_active);
    let mut headless = Backend::Headless(HeadlessBackend::new());
    assert!(headless.as_drm_mut().is_none());
    assert_eq!(headless.as_headless_mut().unwrap().render_count("A"), 0);
}

#[test]
fn output_heads_are_reported_once() {
    let (mut e, _) = start();
    e.output_heads_changed = true;
    let heads = e.refresh_output_management().unwrap();
    assert_eq!(heads.len(), 2);
    assert_eq!(heads[1].name, "B");
    assert!(heads[1].enabled);
    assert_eq!(heads[1].position, Some((800, 0)));
    assert_eq!(heads[1].current_mode, Some(0));
    assert_eq!(heads[1].scale_120, 120);
    assert!(e.refresh_output_management().is_none());
}

#[test]
fn windows_are_reported_to_taskbars() {
    let (mut e, _) = start();
    let a = window(&mut e, "editor");
    let b = window(&mut e, "browser");
    show(&mut e, "A", vec![entry(a, 0, 0, 400, 300, true)]);
    e.check_surface_info_changes(a, name("editor"), name("notes"));
    e.check_surface_info_changes(b, name("browser"), name(""));
    e.set_focus(a, false, "test", None);
    let list = e.refresh_foreign_toplevel();
    assert_eq!(list.len(), 2);
    assert_eq!(list[0].id, a);
    assert_eq!(list[0].title, Some(name("notes")));
    assert_eq!(list[0].app_id, "editor");
    assert_eq!(list[0].output, Some(name("A")));
    assert!(list[0].is_focused && !list[0].is_fullscreen);
    assert!(!list[1].is_focused);
    e.activate(b);
    assert_eq!(e.focused_surface_id, b);
    e.activate(99);
    assert_eq!(e.focused_surface_id, b);
    e.take_effects();
    e.close(99);
    e.close(a);
    let asked = e.take_effects();
    assert_eq!(asked.len(), 1);
    assert!(matches!(asked[0], Effect::SendClose { id } if id == a));
    e.activate_workspace(name("B"), 2);
    assert!(events(&mut e).iter().any(
        |ev| matches!(ev, Event::ActivateWorkspace { output, tab_index: 2 } if output == "B")
    ));
}

#[test]
fn popups_stay_in_the_room_of_their_window() {
    let (mut e, _) = start();
    let a = window(&mut e, "app");
    let b = window(&mut e, "other");
    assert_eq!(e.popup_target_rect(a), None);
    assert_eq!(e.output_for_popup(b), Some(name("A")));
    show(&mut e, "B", vec![entry(a, 30, 20, 400, 300, true)]);
    assert_eq!(e.popup_target_rect(a), Some(rect(0, -20, 400, 768)));
    assert_eq!(e.output_for_popup(a), Some(name("B")));
    let mut whole = entry(a, 0, 0, 1024, 768, true);
    whole.fullscreen = true;
    show(&mut e, "B", vec![whole]);
    assert_eq!(e.popup_target_rect(a), Some(rect(0, 0, 1024, 768)));
    let room = e.layer_popup_target("B", Point { x: 5, y: 700 }, Point { x: 1, y: 2 });
    assert_eq!(room, rect(-6, -702, 1024, 768));
    let room = e.layer_popup_target("none", Point { x: 0, y: 0 }, Point { x: 0, y: 0 });
    assert_eq!(room.size, e.output_size);
}

fn streaming(target: CastTarget) -> Cast {
    let size = CastSize { w: 800, h: 600 };
    let mut c = Cast::new(4, Size { w: 800, h: 600 }, 60, target, true, vec![3], 1).0;
    c.format_received(size, 60, 1);
    c.format_settled(size, 3, Some(1)).unwrap();
    c.state_changed(StreamState::Streaming, 9);
    assert!(matches!(c.state, CastState::Ready { .. }));
    c
}

#[test]
fn casts_are_planned_by_target() {
    let (mut e, _) = start();
    let a = window(&mut e, "app");
    show(&mut e, "B", vec![entry(a, 30, 20, 400, 300, true)]);
    let mut of_output = streaming(CastTarget::Output { name: name("A") });
    assert_eq!(e.plan_cast(&of_output, "A"), CastPlan::Output);
    assert_eq!(e.plan_cast(&of_output, "B"), CastPlan::Skip);
    let of_window = streaming(CastTarget::Window { id: a });
    assert_eq!(e.plan_cast(&of_window, "B"), CastPlan::Window(a));
    assert_eq!(e.plan_cast(&of_window, "A"), CastPlan::Skip);
    assert_eq!(e.window_output_name(a), Some(name("B")));
    of_output.fail();
    assert!(of_output.has_error());
    assert_eq!(e.plan_cast(&of_output, "A"), CastPlan::Stop);
    assert_eq!(e.plan_cast(&of_window, "B"), CastPlan::Window(a));
    let place = e.window_on_output("B", a).unwrap();
    assert_eq!((place.0, place.1, place.2.id), (830, 20, a));
    assert!(e.window_on_output("A", a).is_none());
    e.cast_started(4, CastTarget::Window { id: a });
    e.toplevel_destroyed(a);
    assert_eq!(e.window_output_name(a), None);
    assert_eq!(e.plan_cast(&of_window, "B"), CastPlan::Skip);
    assert!(e.screen_casts.entries.is_empty());
}

#[test]
fn window_casts_follow_the_window() {
    let (mut e, _) = start();
    let a = window(&mut e, "app");
    let mut c = streaming(CastTarget::Window { id: a });
    let same = Size { w: 800, h: 600 };
    let step = e.window_cast_step(&mut c, a, same, Some(60_000), at(16), at(1), 5);
    assert!(step.offer.is_none());
    assert!(!step.pacing.unwrap().delayed);
    let wider = Size { w: 900, h: 600 };
    let step = e.window_cast_step(&mut c, a, wider, Some(144_000), at(33), at(20), 6);
    let offer = step.offer.unwrap();
    assert_eq!((offer.size, offer.max_framerate), (CastSize { w: 900, h: 600 }, 144));
    assert!(step.pacing.is_none());
    assert!(c.is_resize_pending());
    let step = e.window_cast_step(&mut c, a, wider, Some(144_000), at(50), at(40), 7);
    assert!(step.offer.is_none() && step.pacing.is_none());
    let step = e.window_cast_step(&mut c, 99, same, None, at(66), at(60), 8);
    assert!(step.offer.is_none() && step.pacing.is_none());
}

#[test]
fn casts_start_with_the_size_of_their_target() {
    let (mut e, mut b) = start();
    let a = window(&mut e, "app");
    show(&mut e, "A", vec![entry(a, 0, 0, 400, 300, true)]);
    let of_output = CastTarget::Output { name: name("B") };
    let size = Size { w: 400, h: 300 };
    assert_eq!(e.cast_info(&of_output, size), Some((Size { w: 1024, h: 768 }, 60)));
    assert_eq!(e.cast_info(&CastTarget::Output { name: name("C") }, size), None);
    assert_eq!(e.cast_info(&CastTarget::Window { id: a }, size), Some((size, 60)));
    assert_eq!(e.cast_info(&CastTarget::Window { id: 99 }, size), None);
    b.redraw_queued_outputs(&mut e);
    e.redraw_cast_target(&of_output);
    assert_eq!(redraw_state(&e, "A"), RedrawState::Idle);
    assert_eq!(redraw_state(&e, "B"), RedrawState::Queued);
    e.cast_started(4, of_output);
    e.pipewire_lost();
    assert!(e.screen_casts.entries.is_empty());
    assert!(matches!(e.take_effects().last(), Some(Effect::DropCasts)));
}

#[test]
fn frames_are_predicted_per_output() {
    let (mut e, d) = displays(&["DP-1"]);
    assert!(e.begin_redraw("none", at(0)).is_none());
    assert_eq!(e.begin_redraw("DP-1", at(3)), Some(at(3)));
    d.frame_done(&mut e, &name("DP-1"), FrameOutcome::Queued, at(16), at(1));
    d.process_vblank(&mut e, 1, Some(at(16)), 1, at(16));
    let expected = Duration::from_nanos(1_000_016_000_000 + 16_666_667);
    assert_eq!(e.begin_redraw("DP-1", at(17)), Some(expected));
    let n = name("DP-1");
    assert!(e.finish_redraw(&n, RenderResult::Submitted) || e.lock_state == LockState::Unlocked);
}

#[test]
fn locked_keys_go_to_the_lock_surface() {
    let (mut e, mut b) = start();
    e.lock(9, false, at(1));
    b.redraw_queued_outputs(&mut e);
    e.new_lock_surface(70, &name("A"), true);
    let switch_vt_2 = 0x1008_fe02;
    let (action, surface) = e.handle_locked_key(true, switch_vt_2, at(2));
    assert_eq!((action, surface), (KeyboardAction::ChangeVt(2), None));
    let (action, surface) = e.handle_locked_key(false, switch_vt_2, at(3));
    assert_eq!((action, surface), (KeyboardAction::Forward, Some(70)));
    let (action, surface) = e.handle_locked_key(true, 0x61, at(4));
    assert_eq!((action, surface), (KeyboardAction::Forward, Some(70)));
}

#[test]
fn keys_and_focus_are_let_go() {
    let (mut e, _) = start();
    let a = window(&mut e, "app");
    e.set_focus(a, false, "test", None);
    e.sync_keyboard_focus();
    assert_eq!(e.keyboard_focus, FocusTarget::Window(a));
    e.release_all_keys(false);
    assert_eq!(e.keyboard_focus, FocusTarget::Window(a));
    e.release_all_keys(true);
    assert_eq!(e.keyboard_focus, FocusTarget::Nobody);
    e.take_effects();
    e.restore_focus(a);
    assert_eq!(e.keyboard_focus, FocusTarget::Window(a));
    assert!(e
        .take_effects()
        .iter()
        .any(|f| matches!(f, Effect::SetKeyboardFocus { target: FocusTarget::Window(id) } if *id == a)));
    e.restore_focus(99);
    assert_eq!(e.focused_surface_id, a);
}

#[test]
fn text_fields_of_emacs_are_left_alone() {
    let (mut e, _) = start();
    let a = window(&mut e, "app");
    e.set_emacs_pid(5);
    let mut pending = PendingFrameOutputs::pending_frame_outputs();
    pending.prepare_frame(name("A"));
    let frame = e.handle_new_toplevel(name("emacs"), Some(5), &mut pending);
    assert!(e.leaves_text_input(false, None));
    assert!(e.leaves_text_input(true, Some(frame)));
    assert!(!e.leaves_text_input(true, Some(a)));
    assert!(!e.leaves_text_input(true, None));
    assert!(e.is_read_only_surface(Some(frame)));
    assert!(!e.is_read_only_surface(Some(a)));
    assert!(!e.is_read_only_surface(None));
}

#[test]
fn pointer_redraws_what_it_leaves_and_enters() {
    let (mut e, mut b) = start();
    e.pointer_moved(Point { x: 10, y: 10 });
    e.queue_redraw_for_pointer();
    assert_eq!(redraw_state(&e, "A"), RedrawState::Queued);
    assert_eq!(redraw_state(&e, "B"), RedrawState::Idle);
    b.redraw_queued_outputs(&mut e);
    e.pointer_moved(Point { x: 810, y: 10 });
    e.queue_redraw_for_pointer();
    assert_eq!(redraw_state(&e, "A"), RedrawState::Queued);
    assert_eq!(redraw_state(&e, "B"), RedrawState::Queued);
    assert_eq!(e.pointer_output, Some(name("B")));
}

#[test]
fn emacs_sees_the_free_areas() {
    let (mut e, _) = start();
    let outputs = e.update_shared_state().unwrap();
    assert_eq!(outputs.len(), 2);
    assert_eq!(outputs[1].0, "B");
    assert_eq!(outputs[1].1.origin, (800, 0));
    assert!(e.update_shared_state().is_none());
    e.check_working_area_change(&name("B"), rect(0, 30, 1024, 738));
    let outputs = e.update_shared_state().unwrap();
    assert_eq!(outputs[1].1.origin, (800, 30));
}

#[test]
fn idle_commands_are_killed_on_waking() {
    let (mut e, _) = start();
    e.configure_idle(Some(Duration::from_secs(5)), IdleAction::RunCommand(name("lock")), at(0));
    assert!(e.on_idle_timer_fired(at(5_000)));
    assert!(e
        .take_effects()
        .iter()
        .any(|f| matches!(f, Effect::SpawnIdleCommand { command } if command == "lock")));
    e.idle_command_started(true);
    assert!(e.idle_timeout.child_running);
    e.wake_from_idle(at(6_000));
    assert!(!e.idle_timeout.child_running);
    assert!(e.take_effects().iter().any(|f| matches!(f, Effect::KillIdleCommand)));
}

#[test]
fn names_of_layers() {
    assert_eq!(layer_name(Layer::Overlay), "Overlay");
    assert_eq!(layer_name(Layer::Background), "Background");
    assert_eq!(interactivity_name(KeyboardInteractivity::Never), "none");
    assert_eq!(interactivity_name(KeyboardInteractivity::Exclusive), "exclusive");
    assert_eq!(interactivity_name(KeyboardInteractivity::OnDemand), "on_demand");
    let (mut e, _) = start();
    assert!(!e.new_layer_surface(
        5,
        LayerPlace::Gone,
        Layer::Top,
        KeyboardInteractivity::OnDemand
    ));
    assert!(e.layers.is_empty());
}

#[test]
fn focus_and_numbers_survive_commands() {
    let (mut e, _) = start();
    let a = window(&mut e, "app");
    let b = window(&mut e, "other");
    e.set_focus(a, false, "test", None);
    let next = e.next_surface_id;
    e.handle_module_command(ModuleCommand::TextInputIntercept { enabled: true }, at(3));
    e.handle_module_command(ModuleCommand::Close { id: b }, at(4));
    assert_eq!(e.focused_surface_id, a);
    assert_eq!(e.next_surface_id, next);
    assert!(e.windows.contains(a) && e.windows.contains(b));
}

#[test]
fn display_plugged_in_under_a_lock_counts_as_locked() {
    let (mut e, mut d) = displays(&["DP-1"]);
    e.lock(9, false, at(1));
    assert_eq!(e.output_state.get("DP-1").unwrap().lock_render_state, LockRenderState::Unlocked);
    d.frame_done(&mut e, &name("DP-1"), FrameOutcome::Queued, at(16), at(2));
    e.finish_redraw(&name("DP-1"), RenderResult::Submitted);
    assert_eq!(e.lock_state, LockState::Locked(9));
    let c = ConnectorInfo {
        name: name("DP-2"),
        modes: vec![hd()],
        size_mm: None,
        make: None,
        model: None,
    };
    d.connect_output(&mut e, 2, &c, &hd(), &current());
    assert_eq!(e.output_state.get("DP-2").unwrap().lock_render_state, LockRenderState::Locked);
    assert_eq!(e.lock_state, LockState::Locked(9));
}

#[test]
fn frames_of_one_output_leave_the_other() {
    let (mut e, d) = displays(&["DP-1", "DP-2"]);
    let other = *e.output_state.get("DP-2").unwrap();
    d.frame_done(&mut e, &name("DP-1"), FrameOutcome::Queued, at(16), at(1));
    e.finish_redraw(&name("DP-1"), RenderResult::Submitted);
    d.process_vblank(&mut e, 1, Some(at(16)), 1, at(16));
    assert_eq!(*e.output_state.get("DP-2").unwrap(), other);
}

#[test]
fn closing_the_lid_without_a_monitor_turns_everything_off() {
    let (mut e, mut d) = displays(&["eDP-1"]);
    assert!(e.monitors_active);
    d.handle_lid_state(&mut e, true);
    assert!(!e.monitors_active);
    assert!(e.output_state.contains("eDP-1"));
    let (mut e, mut d) = displays(&["eDP-1", "DP-1"]);
    d.handle_lid_state(&mut e, true);
    assert!(e.monitors_active);
    assert!(!e.output_state.contains("eDP-1"));
}

#[test]
fn redraw_behind_an_estimated_vblank_is_queued() {
    let (mut e, d) = displays(&["DP-1"]);
    d.frame_done(&mut e, &name("DP-1"), FrameOutcome::Empty, at(16), at(1));
    assert!(matches!(redraw_state(&e, "DP-1"), RedrawState::WaitingForEstimatedVBlank(_)));
    assert!(!d.has_queued_redraws(&e));
    e.queue_redraw("DP-1");
    assert!(matches!(redraw_state(&e, "DP-1"), RedrawState::WaitingForEstimatedVBlankAndQueued(_)));
    assert!(d.has_queued_redraws(&e));
    assert!(HeadlessBackend::new().has_queued_redraws(&e));
    assert!(Backend::Drm(d).has_queued_redraws(&e));
}

#[test]
fn no_timer_for_an_output_that_is_not_driven() {
    let (mut e, _) = displays(&["DP-1"]);
    let closed = DrmBackendState::new(true);
    let timers = e.next_timer;
    closed.queue_estimated_vblank_timer(&mut e, &name("DP-1"), at(16), at(1));
    assert_eq!(redraw_state(&e, "DP-1"), RedrawState::Queued);
    assert_eq!(e.next_timer, timers);
    assert!(e.take_effects().is_empty());
}

#[test]
fn windows_are_placed_by_their_primary_view() {
    let (mut e, _) = start();
    let a = window(&mut e, "app");
    show(&mut e, "B", vec![entry(a, 30, 20, 400, 300, false)]);
    show(&mut e, "A", vec![entry(a, 5, 6, 40, 30, true)]);
    assert_eq!(e.window_global_position(a, Size { w: 10, h: 10 }), Some((830, 20)));
    assert_eq!(e.popup_target_rect(a), Some(rect(0, -6, 40, 600)));
}

#[test]
fn popups_may_cover_panels() {
    let (mut e, mut b) = start();
    let a = window(&mut e, "app");
    show(&mut e, "B", vec![entry(a, 0, 20, 400, 300, true)]);
    let mut cur = current();
    cur.size = Size { w: 1024, h: 768 };
    cur.mode_size = cur.size;
    cur.zone = rect(0, 30, 1024, 738);
    e.output_config_changed(&name("B"), &cur);
    assert_eq!(e.popup_target_rect(a), Some(rect(0, -20, 400, 768)));
    assert_eq!(e.window_popup_target(a, Point { x: 3, y: 4 }), rect(-3, -24, 400, 768));
    let other = window(&mut e, "other");
    let area = e.output_size;
    assert_eq!(e.window_popup_target(other, Point { x: 1, y: 0 }), rect(-1, 0, area.w, area.h));
    b.redraw_queued_outputs(&mut e);
}

#[test]
fn early_idle_timer_waits_for_the_rest() {
    let (mut e, _) = start();
    e.configure_idle(Some(Duration::from_secs(5)), IdleAction::DeactivateMonitors, at(0));
    let first = e.idle_timeout.timer_token.unwrap();
    e.reset_idle_timer(at(2_000));
    e.take_effects();
    e.idle_timer_elapsed(first, at(5_000));
    assert!(!e.idle_timeout.is_idle);
    let second = e.idle_timeout.timer_token.unwrap();
    assert_ne!(second, first);
    let asked = e.take_effects();
    assert_eq!(asked.len(), 1);
    assert!(matches!(&asked[0], Effect::StartTimer { token, after, .. }
        if *token == second && *after == Duration::from_secs(2)));
    e.idle_timer_elapsed(first, at(9_000));
    assert!(!e.idle_timeout.is_idle);
    e.idle_timer_elapsed(second, at(7_000));
    assert!(e.idle_timeout.is_idle && !e.monitors_active);
}

fn place(x: Option<i32>, y: Option<i32>) -> ModuleCommand {
    ModuleCommand::ConfigureOutput {
        name: name("A"),
        x,
        y,
        width: None,
        height: None,
        refresh: None,
        scale_120: None,
        transform: None,
        enabled: None,
    }
}

#[test]
fn later_commands_of_a_batch_build_on_earlier_ones() {
    let (mut e, b) = start();
    let mut batch = CommandBatch::new(vec![place(Some(100), None), place(None, Some(50))]);
    let mut cur = current();
    cur.size = Size { w: 800, h: 600 };
    cur.mode_size = cur.size;
    cur.zone = rect(0, 0, 800, 600);
    while e.process_pending_commands(&mut batch, at(1)) == BatchStep::Handled {
        for effect in e.take_effects() {
            if let Effect::ApplyOutputConfig { output } = effect {
                b.apply_output_config(&mut e, &output, &cur);
            }
        }
    }
    assert_eq!(e.output_config.get("A").unwrap().position, Some((100, 50)));
    assert_eq!(e.space.get("A").unwrap().geo.loc, Point { x: 100, y: 50 });
}

#[test]
fn a_new_compositor_is_at_rest() {
    let mut e = Ewm::new(at(0));
    assert_eq!(e.pointer, Point { x: 0, y: 0 });
    assert_eq!(e.next_timer, 0);
    assert_eq!(e.focus_history.next_seq, 0);
    assert!(e.window_cast_output.entries.is_empty());
    for k in 1..4 {
        assert_eq!(window(&mut e, "app"), k);
    }
    e.toplevel_destroyed(2);
    assert_eq!(window(&mut e, "app"), 4);
}
