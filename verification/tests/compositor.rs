//! The compositor's state on virtual outputs.
use ewm::backend::connect::choose_mode;
use ewm::backend::drm::DrmMode;
use ewm::backend::drm_state::{ConnectorInfo, DrmBackendState, FrameOutcome, SessionStep};
use ewm::backend::headless::HeadlessBackend;
use ewm::backend::{Backend, RenderResult, Transform};
use ewm::dbus::CastTarget;
use ewm::effect::{Effect, FocusTarget};
use ewm::event::Event;
use ewm::ewm::commands::{
    merge_output_config, parse_layout_names, BatchStep, CommandBatch, OutputSettings,
};
use ewm::ewm::focus::{click_layers, hit_order, HitStage};
use ewm::ewm::input_events::{
    active_constraint, maybe_activate_pointer_constraint, plan_motion, MotionPlan, PointerHold,
};
use ewm::ewm::layers::{LayerCommit, LayerPlace};
use ewm::ewm::outputs::CurrentOutput;
use ewm::ewm::reports::RenderPass;
use ewm::ewm::surfaces::{
    layout_hits, CommitKind, FrameTarget, PointerMapping, PointerRoute, SurfaceCommit,
};
use ewm::ewm::windows::{token_created, WindowRequest};
use ewm::ewm::{DragIcon, Ewm, IdleAction, KeyboardInteractivity, Layer, LockState};
use ewm::geometry::{Point, Rect, Size};
use ewm::im_relay::ImEvent;
use ewm::keys::{InterceptKind, KeyboardAction};
use ewm::layout::{LayoutEntry, MappedOutput};
use ewm::module::{ModuleCommand, PendingFrameOutputs};
use ewm::outputs::OutputConfig;
use ewm::redraw::RedrawState;
use ewm::tables::IdMap;
use ewm::time::Duration;

fn at(ms: u64) -> Duration {
    Duration::from_millis(1_000_000 + ms)
}

fn name(n: &str) -> String {
    n.to_string()
}

fn start() -> (Ewm, HeadlessBackend) {
    let mut e = Ewm::new(at(0));
    let mut b = HeadlessBackend::new();
    b.add_output(&name("A"), 800, 600, Size { w: 800, h: 600 }, &mut e);
    b.add_output(&name("B"), 1024, 768, Size { w: 1024, h: 768 }, &mut e);
    e.take_effects();
    (e, b)
}

fn window(e: &mut Ewm, app: &str) -> u64 {
    let mut pending = PendingFrameOutputs::pending_frame_outputs();
    e.handle_new_toplevel(name(app), Some(5), &mut pending)
}

fn entry(id: u64, x: i32, w: u32, focused: bool) -> LayoutEntry {
    LayoutEntry { id, x, y: 0, w, h: 100, focused, primary: false, fullscreen: false }
}

fn rect(x: i32, y: i32, w: i32, h: i32) -> Rect {
    Rect { loc: Point { x, y }, size: Size { w, h } }
}

fn events(e: &mut Ewm) -> Vec<Event> {
    let mut out = Vec::new();
    for effect in e.take_effects() {
        if let Effect::Event(ev) = effect {
            out.push(ev);
        }
    }
    out
}

#[test]
fn outputs_are_placed_side_by_side() {
    let mut e = Ewm::new(at(0));
    let mut b = HeadlessBackend::new();
    b.add_output(&name("A"), 800, 600, Size { w: 800, h: 600 }, &mut e);
    let first = events(&mut e);
    assert!(first.iter().any(|ev| matches!(ev, Event::OutputDetected(i)
        if i.name == "A" && i.make == "EWM" && i.modes.len() == 1 && i.modes[0].refresh == 60_000)));
    b.add_output(&name("B"), 1024, 768, Size { w: 1024, h: 768 }, &mut e);
    assert_eq!(e.space.get("B").unwrap().geo.loc, Point { x: 800, y: 0 });
    assert_eq!(e.output_size, Size { w: 1824, h: 768 });
    assert_eq!(e.dbus_outputs.len(), 2);
    assert_eq!(e.dbus_outputs[1].refresh, 60);
    b.remove_output(&name("A"), &mut e);
    assert!(events(&mut e)
        .iter()
        .any(|ev| matches!(ev, Event::OutputDisconnected { name } if name == "A")));
    assert!(!e.space.contains("A"));
    assert!(!e.output_state.contains("A"));
    assert_eq!(e.outputs.len(), 1);
}

#[test]
fn headless_frames_are_counted() {
    let (mut e, mut b) = start();
    assert!(b.has_queued_redraws(&e));
    b.redraw_queued_outputs(&mut e);
    assert_eq!((b.render_count("A"), b.render_count("B")), (1, 1));
    assert!(!b.has_queued_redraws(&e));
    b.redraw_queued_outputs(&mut e);
    assert_eq!(b.render_count("A"), 1);
    e.queue_redraw("A");
    b.redraw_queued_outputs(&mut e);
    assert_eq!((b.render_count("A"), b.render_count("B")), (2, 1));
    assert_eq!(b.render_count("C"), 0);
    assert_eq!(b.render(&mut e, &name("C")), RenderResult::Submitted);
    assert_eq!(b.render_count("C"), 0);
    e.queue_redraw_all();
    e.deactivate_monitors();
    b.redraw_queued_outputs(&mut e);
    assert_eq!(b.render_count("A"), 2);
    let backend = Backend::Headless(b);
    assert!(backend.is_headless() && !backend.is_drm());
    assert!(backend.as_drm().is_none());
    assert_eq!(backend.as_headless().unwrap().render_count("A"), 2);
}

#[test]
fn lock_is_confirmed_when_every_output_shows_it() {
    let (mut e, mut b) = start();
    b.redraw_queued_outputs(&mut e);
    e.take_effects();
    e.lock(9, false, at(1));
    assert!(matches!(e.lock_state, LockState::Locking(9)));
    assert!(e.is_locked());
    b.redraw_queued_outputs(&mut e);
    assert!(matches!(e.lock_state, LockState::Locked(9)));
    assert!(e.take_effects().iter().any(|f| matches!(f, Effect::ConfirmLock { lock: 9 })));
    assert_eq!(e.pointer_route(), PointerRoute::Lock(None));
    e.new_lock_surface(70, &name("A"), true);
    e.new_lock_surface(71, &name("B"), true);
    assert_eq!(e.lock_surface_focus(), Some(70));
    e.unlock(at(2));
    assert!(matches!(e.lock_state, LockState::Unlocked));
    assert_eq!(e.pointer_route(), PointerRoute::Under);
}

#[test]
fn failed_frame_gives_up_a_lock() {
    let (mut e, _) = start();
    e.lock(9, false, at(1));
    e.take_effects();
    assert!(!e.finish_redraw(&name("A"), RenderResult::Skipped));
    assert!(matches!(e.lock_state, LockState::Unlocked));
    assert!(e.take_effects().iter().any(|f| matches!(f, Effect::RefuseLock { lock: 9 })));
}

#[test]
fn second_lock_is_refused_while_the_holder_lives() {
    let (mut e, mut b) = start();
    e.lock(1, false, at(1));
    b.redraw_queued_outputs(&mut e);
    e.take_effects();
    e.lock(2, true, at(2));
    assert!(e.take_effects().iter().any(|f| matches!(f, Effect::RefuseLock { lock: 2 })));
    assert!(matches!(e.lock_state, LockState::Locked(1)));
}

#[test]
fn unlocking_gives_the_focus_back() {
    let (mut e, mut b) = start();
    let w = window(&mut e, "term");
    e.set_focus(w, false, "test", None);
    e.lock(1, false, at(1));
    b.redraw_queued_outputs(&mut e);
    e.unlock(at(2));
    assert_eq!(e.focused_surface_id, w);
}

#[test]
fn windows_get_fresh_numbers() {
    let (mut e, _) = start();
    let a = window(&mut e, "one");
    let b = window(&mut e, "two");
    assert_eq!((a, b), (1, 2));
    e.toplevel_destroyed(a);
    assert!(!e.windows.contains(a));
    let c = window(&mut e, "three");
    assert_eq!(c, 3);
    let news: Vec<u64> = events(&mut e)
        .iter()
        .filter_map(|ev| match ev {
            Event::New { id, .. } => Some(*id),
            _ => None,
        })
        .collect();
    assert_eq!(news, vec![1, 2, 3]);
}

#[test]
fn emacs_frames_go_to_their_output() {
    let (mut e, _) = start();
    e.set_emacs_pid(5);
    assert!(e.is_emacs_client(Some(5)));
    assert!(!e.is_emacs_client(Some(6)));
    let mut pending = PendingFrameOutputs::pending_frame_outputs();
    pending.prepare_frame(name("B"));
    let id = e.handle_new_toplevel(name("emacs"), Some(5), &mut pending);
    assert_eq!(e.emacs_surfaces.get(id).unwrap(), "B");
    assert_eq!(e.windows.get(id).unwrap().at, Some(Point { x: 800, y: 0 }));
    assert_eq!(e.frame_on("B"), Some(id));
    assert!(pending.outputs.is_empty());
    assert_eq!(
        e.window_global_position(id, Size { w: 10, h: 10 }),
        Some((800, 0))
    );
}

#[test]
fn layouts_mark_the_largest_view() {
    let (mut e, _) = start();
    let w = window(&mut e, "term");
    e.take_effects();
    e.apply_output_layout(&name("A"), vec![entry(w, 10, 100, true)]);
    e.apply_output_layout(&name("B"), vec![entry(w, 20, 300, false)]);
    let effects = e.take_effects();
    assert!(effects
        .iter()
        .any(|f| matches!(f, Effect::Enter { output, id } if output == "A" && *id == w)));
    assert_eq!(e.layouts.primary_output_for_surface(w).unwrap().0, "B");
    assert_eq!(e.layouts.focused_output_for_surface(w).unwrap().0, "A");
    assert_eq!(e.find_surface_output(w).as_deref(), Some("A"));
    assert_eq!(e.window_output_name(w).as_deref(), Some("B"));
    assert_eq!(e.window_global_position(w, Size { w: 5, h: 5 }), Some((820, 0)));
    e.apply_output_layout(&name("B"), vec![]);
    assert!(e
        .take_effects()
        .iter()
        .any(|f| matches!(f, Effect::Leave { output, id } if output == "B" && *id == w)));
    assert_eq!(e.layouts.primary_output_for_surface(w).unwrap().0, "A");
}

#[test]
fn windows_are_hit_through_their_layout() {
    let (mut e, _) = start();
    let top = window(&mut e, "top");
    let below = window(&mut e, "below");
    e.apply_output_layout(&name("B"), vec![entry(top, 0, 50, true), entry(below, 0, 200, false)]);
    let p = |x: i32, y: i32| Point { x, y };
    assert_eq!(e.layout_surface_id_under(p(810, 10), p(810, 10)), Some(top));
    assert_eq!(e.layout_surface_id_under(p(860, 10), p(860, 10)), Some(below));
    assert_eq!(e.layout_surface_id_under(p(1010, 10), p(1010, 10)), None);
    assert_eq!(e.layout_surface_id_under(p(10, 10), p(10, 10)), None);
}

#[test]
fn views_are_tried_down_to_a_fullscreen_one() {
    let out = MappedOutput {
        geo: rect(100, 0, 1000, 800),
        size: Size { w: 1000, h: 800 },
        zone: rect(0, 20, 1000, 780),
        mode_size: None,
        refresh: 0,
    };
    let mut sizes: IdMap<Size> = IdMap::new();
    sizes.insert(1, Size { w: 500, h: 400 });
    sizes.insert(2, Size { w: 600, h: 400 });
    sizes.insert(3, Size { w: 1, h: 1 });
    let mut full = entry(2, 0, 0, false);
    full.fullscreen = true;
    full.primary = true;
    let entries = vec![entry(9, 0, 5, false), entry(1, 7, 50, true), full, entry(3, 0, 5, false)];
    let hits = layout_hits(&entries, &out, &sizes);
    assert_eq!(hits.len(), 2);
    assert_eq!((hits[0].id, hits[0].x, hits[0].y), (1, 107, 20));
    assert_eq!(
        hits[0].mapping,
        PointerMapping::FillEntry { window: Size { w: 500, h: 400 }, width: 50, height: 100 }
    );
    assert_eq!((hits[1].x, hits[1].y), (100, 0));
    assert_eq!(hits[1].mapping, PointerMapping::Offset { x: 200, y: 200 });
}

#[test]
fn fullscreen_views_come_above_the_top_layer() {
    let (mut e, _) = start();
    let w = window(&mut e, "film");
    let mut full = entry(w, 0, 800, true);
    full.fullscreen = true;
    e.apply_output_layout(&name("A"), vec![full]);
    assert!(e.layouts.render_above_top_layer("A"));
    assert!(!e.layouts.render_above_top_layer("B"));
    assert!(e.layouts.is_surface_fullscreen(w));
    assert_eq!(hit_order(true)[1], HitStage::LayoutSurfaces);
    assert_eq!(hit_order(false)[1], HitStage::Layer(Layer::Top));
    assert_eq!(click_layers(true), vec![Layer::Overlay]);
    assert_eq!(click_layers(false).len(), 4);
    let cx = e.begin_key(None, false);
    assert!(cx.filter.fullscreen);
    assert_eq!(e.focused_surface_id, w);
}

#[test]
fn focus_commands_move_the_keyboard() {
    let (mut e, _) = start();
    let a = window(&mut e, "a");
    let b = window(&mut e, "b");
    let commands = vec![
        ModuleCommand::Focus { id: a },
        ModuleCommand::Focus { id: b },
        ModuleCommand::Focus { id: 99 },
    ];
    let mut batch = CommandBatch::new(commands);
    for _ in 0..3 {
        assert_eq!(e.process_pending_commands(&mut batch, at(1)), BatchStep::Handled);
    }
    assert_eq!(e.process_pending_commands(&mut batch, at(1)), BatchStep::Done);
    assert_eq!(e.focused_surface_id, b);
    assert_eq!(e.keyboard_focus, FocusTarget::Window(b));
    let mut nothing = CommandBatch::new(vec![]);
    assert_eq!(e.process_pending_commands(&mut nothing, at(1)), BatchStep::Empty);
    e.take_effects();
    e.handle_module_command(ModuleCommand::Focus { id: b }, at(2));
    assert!(e.take_effects().is_empty());
}

#[test]
fn other_commands_leave_the_focus() {
    let (mut e, _) = start();
    let a = window(&mut e, "a");
    e.set_focus(a, false, "test", None);
    e.take_effects();
    e.handle_module_command(ModuleCommand::Close { id: a }, at(1));
    e.handle_module_command(ModuleCommand::TextInputIntercept { enabled: true }, at(1));
    e.handle_module_command(ModuleCommand::Screenshot { path: None }, at(1));
    e.handle_module_command(ModuleCommand::SetSelection { text: name("t") }, at(1));
    assert_eq!(e.focused_surface_id, a);
    assert!(e.text_input_intercept);
    assert_eq!(e.pending_screenshot.as_deref(), Some("/tmp/ewm-screenshot.png"));
    let effects = e.take_effects();
    assert!(matches!(effects[0], Effect::SendClose { id } if id == a));
    assert!(matches!(&effects[1], Effect::SetSelection { text } if text == "t"));
}

#[test]
fn pending_focus_comes_before_the_key() {
    let (mut e, _) = start();
    let a = window(&mut e, "a");
    let b = window(&mut e, "b");
    e.set_focus(a, false, "test", None);
    e.begin_key(Some(b), false);
    assert_eq!(e.focused_surface_id, b);
    let action = e.finish_key(None, None, 30, 0, at(1));
    assert_eq!(action, KeyboardAction::Forward);
    e.take_effects();
    let captured = e.finish_key(Some((InterceptKind::TextInput, 97)), Some(name("a")), 30, 0, at(1));
    assert_eq!(captured, KeyboardAction::TextInputIntercepted);
    assert!(events(&mut e)
        .iter()
        .any(|ev| matches!(ev, Event::Key { keysym: 97, utf8 } if utf8.as_deref() == Some("a"))));
}

#[test]
fn redirected_key_goes_to_the_frame_of_the_output() {
    let (mut e, _) = start();
    e.set_emacs_pid(5);
    let mut pending = PendingFrameOutputs::pending_frame_outputs();
    pending.prepare_frame(name("A"));
    let frame = e.handle_new_toplevel(name("emacs"), Some(5), &mut pending);
    let mut none = PendingFrameOutputs::pending_frame_outputs();
    let other = e.handle_new_toplevel(name("term"), Some(6), &mut none);
    e.apply_output_layout(&name("A"), vec![entry(other, 0, 100, true)]);
    e.set_focus(other, false, "test", None);
    e.sync_keyboard_focus();
    assert_eq!(e.get_emacs_surface_for_focused_output(), Some(frame));
    e.begin_key(None, false);
    let action = e.finish_key(Some((InterceptKind::Redirect, 120)), None, 30, 0, at(1));
    assert_eq!(action, KeyboardAction::RedirectToEmacs);
    assert_eq!(e.focused_surface_id, frame);
    assert_eq!(e.keyboard_focus, FocusTarget::Window(frame));
    assert!(!e.keyboard_focus_dirty);
}

#[test]
fn clicks_and_scrolls_move_the_focus() {
    let (mut e, _) = start();
    let a = window(&mut e, "a");
    let b = window(&mut e, "b");
    e.pointer_used(true, None, Some(a), false, at(1));
    assert_eq!(e.focused_surface_id, a);
    e.pointer_used(true, None, Some(b), true, at(1));
    assert_eq!(e.focused_surface_id, b);
    e.pointer_used(false, None, Some(a), false, at(1));
    assert_eq!(e.focused_surface_id, b);
    e.lock(1, false, at(2));
    e.pointer_used(true, None, Some(a), false, at(3));
    assert_eq!(e.focused_surface_id, b);
}

#[test]
fn constraints_hold_the_pointer() {
    assert_eq!(active_constraint(true, None, true), PointerHold::Locked);
    assert_eq!(active_constraint(true, Some(true), false), PointerHold::Confined);
    assert_eq!(active_constraint(true, Some(false), true), PointerHold::Free);
    assert_eq!(active_constraint(false, None, true), PointerHold::Free);
    assert_eq!(plan_motion(PointerHold::Free, false, false), MotionPlan::Move);
    assert_eq!(plan_motion(PointerHold::Locked, true, true), MotionPlan::Stay);
    assert_eq!(plan_motion(PointerHold::Confined, true, true), MotionPlan::Move);
    assert_eq!(plan_motion(PointerHold::Confined, false, true), MotionPlan::StayActive);
    assert!(maybe_activate_pointer_constraint(true, false, None));
    assert!(!maybe_activate_pointer_constraint(true, true, None));
    assert!(!maybe_activate_pointer_constraint(true, false, Some(false)));
    assert!(!maybe_activate_pointer_constraint(false, false, None));
}

fn layer_commit(e: &Ewm, has_buffer: bool, k: KeyboardInteractivity) -> LayerCommit {
    LayerCommit {
        is_root: true,
        initial_configure_sent: true,
        has_buffer,
        layer: Layer::Top,
        interactivity: k,
        zone: e.space.get("A").unwrap().zone,
    }
}

#[test]
fn exclusive_layers_take_the_keyboard() {
    let (mut e, _) = start();
    let w = window(&mut e, "w");
    e.set_focus(w, false, "test", None);
    assert!(e.new_layer_surface(
        50,
        LayerPlace::Output(name("A")),
        Layer::Top,
        KeyboardInteractivity::Exclusive
    ));
    let c = layer_commit(&e, true, KeyboardInteractivity::Exclusive);
    assert!(e.handle_layer_surface_commit(50, &c));
    assert!(!e.handle_layer_surface_commit(51, &c));
    assert_eq!(e.resolve_layer_keyboard_focus(), Some(50));
    e.sync_keyboard_focus();
    assert_eq!(e.keyboard_focus, FocusTarget::Layer(50));
    let infos = e.get_layer_surfaces_info();
    assert_eq!(infos.len(), 1);
    assert_eq!((infos[0].surface, infos[0].layer), (50, Layer::Top));
    assert_eq!(
        e.frame_targets("A"),
        vec![FrameTarget::Window(w), FrameTarget::Layer(50)]
    );
    assert_eq!(e.frame_targets("B"), vec![FrameTarget::Window(w)]);
    let fallback = e.fallback_frame_targets();
    assert_eq!(fallback.windows, vec![FrameTarget::Window(w)]);
    assert_eq!(fallback.outputs[0].1, vec![FrameTarget::Layer(50)]);
    assert!(fallback.icon.is_none());
    let zone = e.space.get("A").unwrap().zone;
    e.layer_destroyed(50, zone);
    e.sync_keyboard_focus();
    assert_eq!(e.keyboard_focus, FocusTarget::Window(w));
}

#[test]
fn working_area_shrinks_for_panels() {
    let (mut e, _) = start();
    e.check_working_area_change(&name("A"), rect(0, 30, 800, 570));
    assert!(events(&mut e).iter().any(|ev| matches!(
        ev,
        Event::WorkingArea { output, y: 30, height: 570, .. } if output == "A"
    )));
    assert_eq!(e.get_working_area("A"), Some(rect(0, 30, 800, 570)));
    e.check_working_area_change(&name("A"), rect(0, 30, 800, 570));
    assert!(events(&mut e).is_empty());
    assert_eq!(e.get_working_areas_info().len(), 2);
}

fn surface_commit(e: &Ewm) -> SurfaceCommit {
    SurfaceCommit {
        is_root: true,
        delta: Point { x: 0, y: 0 },
        layer_root: 50,
        layer: layer_commit(e, true, KeyboardInteractivity::Never),
        synced: false,
        window: None,
        app_id: name("app"),
        title: name("new title"),
        root: 60,
    }
}

#[test]
fn commits_are_dispatched_by_kind() {
    let (mut e, mut b) = start();
    let w = window(&mut e, "w");
    e.apply_output_layout(&name("A"), vec![entry(w, 0, 100, true)]);
    b.redraw_queued_outputs(&mut e);
    e.take_effects();
    let mut c = surface_commit(&e);
    c.window = Some(w);
    assert_eq!(e.commit(c), CommitKind::Window(w));
    assert_eq!(e.output_state.get("A").unwrap().redraw_state, RedrawState::Queued);
    assert_eq!(e.output_state.get("B").unwrap().redraw_state, RedrawState::Idle);
    assert!(events(&mut e)
        .iter()
        .any(|ev| matches!(ev, Event::Title { title, .. } if title == "new title")));
    let mut synced = surface_commit(&e);
    synced.synced = true;
    synced.window = Some(w);
    assert_eq!(e.commit(synced), CommitKind::Synced);
    assert_eq!(e.commit(surface_commit(&e)), CommitKind::Other);
    assert_eq!(e.output_state.get("B").unwrap().redraw_state, RedrawState::Idle);
    e.dnd_requested(Some(60));
    assert_eq!(e.output_state.get("B").unwrap().redraw_state, RedrawState::Queued);
    assert_eq!(e.commit(surface_commit(&e)), CommitKind::DragIcon);
    let mut other = surface_commit(&e);
    other.root = 61;
    assert_eq!(e.commit(other), CommitKind::Other);
}

#[test]
fn drag_icons_follow_the_drag() {
    let (mut e, mut b) = start();
    let w = window(&mut e, "w");
    e.dnd_requested(None);
    assert_eq!(e.drag_icon, None);
    e.dnd_requested(Some(60));
    assert_eq!(e.drag_icon, Some(DragIcon { surface: 60, offset: Point { x: 0, y: 0 } }));
    b.redraw_queued_outputs(&mut e);
    let mut c = surface_commit(&e);
    c.delta = Point { x: -3, y: 5 };
    assert_eq!(e.commit(c), CommitKind::DragIcon);
    assert_eq!(e.output_state.get("B").unwrap().redraw_state, RedrawState::Queued);
    let mut c = surface_commit(&e);
    c.delta = Point { x: 1, y: 1 };
    e.commit(c);
    let mut part = surface_commit(&e);
    part.is_root = false;
    part.delta = Point { x: 100, y: 100 };
    e.commit(part);
    assert_eq!(e.drag_icon.unwrap().offset, Point { x: -2, y: 6 });
    let targets = vec![FrameTarget::Window(w), FrameTarget::Icon(60)];
    assert_eq!(e.frame_targets("A"), targets);
    assert_eq!(e.frame_targets("B"), targets);
    let icon = e.fallback_frame_targets().icon;
    assert_eq!(icon, Some((FrameTarget::Icon(60), Some(name("A")))));
    let mut nowhere = Ewm::new(at(0));
    nowhere.dnd_requested(Some(7));
    assert_eq!(nowhere.fallback_frame_targets().icon, Some((FrameTarget::Icon(7), None)));
    b.redraw_queued_outputs(&mut e);
    e.dropped();
    assert_eq!(e.drag_icon, None);
    assert_eq!(e.output_state.get("A").unwrap().redraw_state, RedrawState::Queued);
    assert_eq!(e.frame_targets("A"), vec![FrameTarget::Window(w)]);
    assert!(e.fallback_frame_targets().icon.is_none());
}

#[test]
fn idleness_and_waking() {
    let (mut e, _) = start();
    e.configure_idle(Some(Duration::from_secs(60)), IdleAction::DeactivateMonitors, at(0));
    let token = e.idle_timeout.timer_token.unwrap();
    e.take_effects();
    e.idle_timer_elapsed(token, at(60_000));
    assert!(e.idle_timeout.is_idle);
    assert!(!e.monitors_active);
    assert!(events(&mut e)
        .iter()
        .any(|ev| matches!(ev, Event::IdleStateChanged { idle: true })));
    e.notify_activity(at(61_000));
    assert!(!e.idle_timeout.is_idle);
    assert!(e.monitors_active);
    assert!(e.idle_timeout.timer_token.is_some());
}

#[test]
fn activity_keeps_the_session_awake() {
    let (mut e, _) = start();
    e.configure_idle(Some(Duration::from_secs(60)), IdleAction::DeactivateMonitors, at(0));
    e.reset_idle_timer(at(30_000));
    let token = e.idle_timeout.timer_token.unwrap();
    e.take_effects();
    e.idle_timer_elapsed(token, at(60_000));
    assert!(!e.idle_timeout.is_idle);
    assert!(e.take_effects().iter().any(|f| matches!(
        f,
        Effect::StartTimer { after, .. } if after.as_nanos() == 30_000_000_000
    )));
}

#[test]
fn output_configuration_is_merged() {
    let s = OutputSettings {
        x: Some(5),
        y: None,
        width: None,
        height: None,
        refresh: None,
        scale_120: Some(240),
        transform: None,
        enabled: None,
    };
    let old = OutputConfig {
        mode: Some((1, 2, None)),
        position: None,
        scale_120: None,
        transform: Some(Transform::Flipped),
        enabled: true,
    };
    let new = merge_output_config(old, &s, None);
    assert_eq!(new.mode, Some((1, 2, None)));
    assert_eq!(new.position, Some((5, 0)));
    assert_eq!(new.scale_120, Some(240));
    assert_eq!(new.transform, Some(Transform::Flipped));
    assert!(new.enabled);
}

#[test]
fn disabled_outputs_leave_the_space() {
    let (mut e, b) = start();
    e.handle_module_command(
        ModuleCommand::ConfigureOutput {
            name: name("A"),
            x: None,
            y: None,
            width: None,
            height: None,
            refresh: None,
            scale_120: None,
            transform: None,
            enabled: Some(false),
        },
        at(1),
    );
    assert!(e
        .take_effects()
        .iter()
        .any(|f| matches!(f, Effect::ApplyOutputConfig { output } if output == "A")));
    let cur = CurrentOutput {
        mode_size: Size { w: 800, h: 600 },
        refresh: 60_000,
        scale_120: 120,
        transform: Transform::Normal,
        size: Size { w: 800, h: 600 },
        zone: rect(0, 0, 800, 600),
    };
    b.apply_output_config(&mut e, &name("A"), &cur);
    assert!(!e.space.contains("A"));
    assert!(e.space.contains("B"));
}

#[test]
fn keyboard_layouts() {
    assert_eq!(parse_layout_names("us, de ,ru"), vec!["us", "de", "ru"]);
    let (mut e, _) = start();
    e.xkb_configured("us,ru");
    e.take_effects();
    e.handle_module_command(ModuleCommand::SwitchLayout { layout: name("ru") }, at(1));
    assert!(e
        .take_effects()
        .iter()
        .any(|f| matches!(f, Effect::SetKeyboardLayout { index: 1 })));
    e.handle_module_command(ModuleCommand::GetLayouts, at(1));
    assert!(events(&mut e)
        .iter()
        .any(|ev| matches!(ev, Event::Layouts { layouts, .. } if layouts.len() == 2)));
}

#[test]
fn commits_wait_for_a_text_field() {
    let (mut e, _) = start();
    e.commit_undelivered(name("x"));
    assert_eq!(e.pending_im_commits, vec!["x"]);
    e.take_effects();
    e.process_im_events(&vec![ImEvent::Activated]);
    assert!(e.pending_im_commits.is_empty());
    assert!(e
        .take_effects()
        .iter()
        .any(|f| matches!(f, Effect::CommitText { text, keep: false } if text == "x")));
}

#[test]
fn focused_output_is_rendered_first() {
    let (mut e, _) = start();
    let w = window(&mut e, "w");
    e.apply_output_layout(&name("B"), vec![entry(w, 0, 100, true)]);
    e.set_focus(w, false, "test", None);
    let mut pass = RenderPass::begin(&e);
    assert_eq!(pass.next(&e).as_deref(), Some("B"));
    assert!(!pass.yields_before("B"));
    pass.rendered("B");
    assert!(pass.yields_before("A"));
}

#[test]
fn dead_windows_are_cleaned_up() {
    let (mut e, _) = start();
    let a = window(&mut e, "a");
    let b = window(&mut e, "b");
    e.apply_output_layout(&name("A"), vec![entry(a, 0, 10, true), entry(b, 0, 10, false)]);
    e.cast_started(4, CastTarget::Window { id: a });
    e.cleanup_dead_windows(&vec![a]);
    assert!(!e.windows.contains(a));
    assert!(e.layouts.primary_output_for_surface(a).is_none());
    assert!(e.layouts.primary_output_for_surface(b).is_some());
}

#[test]
fn requests_of_windows_are_told() {
    let (mut e, _) = start();
    let w = window(&mut e, "w");
    e.take_effects();
    e.fullscreen_request(w, Some(name("B")));
    e.window_request(w, WindowRequest::Minimize);
    e.window_request(w, WindowRequest::Unfullscreen);
    e.window_request(w, WindowRequest::Maximize);
    e.window_request(w, WindowRequest::Unmaximize);
    let told = events(&mut e);
    assert!(matches!(&told[0], Event::FullscreenRequest { output, .. }
        if output.as_deref() == Some("B")));
    assert!(matches!(told[1], Event::Minimize { .. }));
    assert!(matches!(told[2], Event::UnfullscreenRequest { .. }));
    assert!(matches!(told[3], Event::MaximizeRequest { .. }));
    assert!(matches!(told[4], Event::UnmaximizeRequest { .. }));
}

#[test]
fn activation_tokens_expire() {
    let (mut e, _) = start();
    let w = window(&mut e, "w");
    e.request_activation(w, Duration::from_secs(11));
    assert_ne!(e.focused_surface_id, w);
    e.request_activation(w, Duration::from_secs(1));
    assert_eq!(e.focused_surface_id, w);
    assert!(!token_created(None, true, Some(3)));
    assert!(token_created(Some(4), true, Some(3)));
    assert!(!token_created(Some(2), true, Some(3)));
    assert!(!token_created(Some(4), false, Some(3)));
}

fn hd(preferred: bool) -> DrmMode {
    DrmMode {
        width: 1920,
        height: 1080,
        clock: 148_500,
        htotal: 2200,
        vtotal: 1125,
        vscan: 0,
        interlace: false,
        dblscan: false,
        preferred,
    }
}

fn connector(n: &str) -> ConnectorInfo {
    ConnectorInfo {
        name: name(n),
        modes: vec![hd(true)],
        size_mm: Some((500, 300)),
        make: None,
        model: None,
    }
}

fn current() -> CurrentOutput {
    CurrentOutput {
        mode_size: Size { w: 1920, h: 1080 },
        refresh: 60_000,
        scale_120: 120,
        transform: Transform::Normal,
        size: Size { w: 1920, h: 1080 },
        zone: rect(0, 0, 1920, 1080),
    }
}

#[test]
fn displays_connect_and_disconnect() {
    let mut e = Ewm::new(at(0));
    let mut d = DrmBackendState::new(true);
    assert!(d.begin_init());
    d.device_opened();
    assert!(d.is_initialized());
    let c = connector("eDP-1");
    let mode = choose_mode(&e, &c).unwrap();
    assert!(mode.is_usable());
    d.connect_output(&mut e, 31, &c, &mode, &current());
    assert_eq!(d.surfaces.get(31).unwrap(), "eDP-1");
    assert!(e.output_state.contains("eDP-1"));
    d.disconnect_output(31, &mut e);
    assert!(!e.output_state.contains("eDP-1"));
    assert!(d.surfaces.get(31).is_none());
}

#[test]
fn frames_and_vblanks() {
    let mut e = Ewm::new(at(0));
    let mut d = DrmBackendState::new(true);
    d.begin_init();
    d.device_opened();
    let c = connector("DP-1");
    d.connect_output(&mut e, 1, &c, &hd(true), &current());
    e.take_effects();
    let n = name("DP-1");
    assert_eq!(
        d.frame_done(&mut e, &n, FrameOutcome::Queued, at(16), at(1)),
        RenderResult::Submitted
    );
    let shown = d.process_vblank(&mut e, 1, Some(at(16)), 4, at(17)).unwrap();
    assert_eq!(shown.time, at(16));
    assert!(shown.hardware_clock);
    assert_eq!(e.output_state.get("DP-1").unwrap().redraw_state, RedrawState::Idle);
    e.queue_redraw("DP-1");
    assert_eq!(
        d.frame_done(&mut e, &n, FrameOutcome::Empty, at(33), at(20)),
        RenderResult::NoDamage
    );
    let token = e.output_state.get("DP-1").unwrap().redraw_state.timer_token().unwrap();
    d.on_estimated_vblank_timer(&mut e, &n, token);
    assert_eq!(e.output_state.get("DP-1").unwrap().redraw_state, RedrawState::Idle);
    assert!(d.process_vblank(&mut e, 2, None, 5, at(40)).is_none());
}

#[test]
fn closing_the_lid_drops_the_panel() {
    let mut e = Ewm::new(at(0));
    let mut d = DrmBackendState::new(true);
    d.begin_init();
    d.device_opened();
    d.connect_output(&mut e, 1, &connector("eDP-1"), &hd(true), &current());
    d.connect_output(&mut e, 2, &connector("DP-1"), &hd(true), &current());
    d.handle_lid_state(&mut e, true);
    assert!(!e.output_state.contains("eDP-1"));
    assert!(e.output_state.contains("DP-1"));
    assert!(e.monitors_active);
    assert!(d.is_missing_panel("eDP-1", 1, true));
    assert!(!d.is_missing_panel("DP-1", 3, true));
}

#[test]
fn device_opens_only_in_an_active_session() {
    let mut d = DrmBackendState::new(false);
    assert_eq!(d.session_activated(), SessionStep::Initialize);
    assert!(d.session_active);
    d.begin_init();
    d.device_opened();
    let mut e = Ewm::new(at(0));
    d.pause(&mut e);
    assert!(!d.session_active);
    assert_eq!(d.session_activated(), SessionStep::Resume);
}
