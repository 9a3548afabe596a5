use egui::ViewportBuilder;
use egui_bridge::bridge::{EguiBridge, FrameStep};
use egui_bridge::control::{ControlNotification, EguiViewportIoBridge, InputKinds};
use egui_bridge::input::{HeldKeys, Modifiers};
use egui_bridge::mesh::Point;
use egui_bridge::screen::{RenderTarget, Screen};
use egui_bridge::shared::{drain_events, LatestFocus};
use egui_bridge::viewport::{
    FreedViewport, Rect, ViewportInfo, ViewportOutput, ViewportStep, ONE_BITS, ROOT,
};

const NO_KEYS: HeldKeys = HeldKeys { alt: false, ctrl: false, shift: false, meta: false };

fn started() -> EguiBridge {
    let mut bridge = EguiBridge::new(egui::Context::default());
    assert_eq!(bridge.on_process(&vec![], 0), FrameStep::SpawnRoot);
    bridge.spawn_viewport(ROOT, 1, None);
    bridge
}

fn put(id: u64, builder: ViewportBuilder) -> ViewportOutput {
    ViewportOutput { id, parent: ROOT, builder }
}

fn control(id: u64, control: u64) -> EguiViewportIoBridge {
    let mut io = EguiViewportIoBridge::new();
    io.initiate(id, control);
    io
}

fn some_rect() -> Rect {
    Rect { min: Point { x: 1, y: 2 }, max: Point { x: 3, y: 4 } }
}

#[test]
fn root_is_eguis_root() {
    assert_eq!(egui::ViewportId::ROOT.0.value(), ROOT);
    assert_eq!(1.0f32.to_bits(), ONE_BITS);
}

#[test]
fn context_is_the_one_given() {
    let ctx = egui::Context::default();
    let bridge = EguiBridge::new(ctx.clone());
    assert!(bridge.egui_context() == ctx);
    assert!(bridge.egui_context() != egui::Context::default());
}

#[test]
fn frames_are_idle_until_a_repaint_expires() {
    let mut bridge = started();
    let screens = vec![Screen { x: 5, y: 6, width: 100, height: 50 }];
    assert_eq!(bridge.on_process(&screens, 10), FrameStep::Idle);
    bridge.share.repaint_schedule.request(ROOT, 10, 5);
    assert_eq!(bridge.on_process(&screens, 15), FrameStep::Idle);
    let target = RenderTarget { global_offset: (5, 6), size: (100, 50) };
    assert_eq!(bridge.on_process(&screens, 16), FrameStep::Render { target: Some(target) });
    assert_eq!(bridge.share.screen.global_offset, (5, 6));
    assert_eq!(bridge.on_process(&screens, 17), FrameStep::Render { target: None });
    let moved = vec![Screen { x: 0, y: 6, width: 100, height: 50 }];
    let target = RenderTarget { global_offset: (0, 6), size: (100, 50) };
    assert_eq!(bridge.on_process(&moved, 18), FrameStep::Render { target: Some(target) });
}

#[test]
fn input_describes_every_viewport() {
    let mut bridge = started();
    bridge.spawn_viewport(7, 2, Some((ROOT, ViewportBuilder::default())));
    control(ROOT, 1).request_repaint(&mut bridge, some_rect());
    bridge.share.events.push(30);
    bridge.share.events.push(31);
    let keys = HeldKeys { alt: true, ctrl: false, shift: false, meta: true };
    let input = bridge.next_input(keys);
    assert_eq!(input.viewport_id, ROOT);
    assert!(!input.focused);
    assert_eq!(input.events, vec![30, 31]);
    assert_eq!(input.screen_rect, Some(some_rect()));
    assert_eq!(input.max_texture_side, Some(8192));
    assert_eq!(
        input.modifiers,
        Modifiers { alt: true, ctrl: false, shift: false, mac_cmd: true, command: true }
    );
    assert_eq!(input.zoom_factor, None);
    assert_eq!(input.viewports.len(), 2);
    assert_eq!(
        input.viewports[&ROOT],
        ViewportInfo {
            inner_rect: Some(some_rect()),
            focused: None,
            native_pixels_per_point: Some(ONE_BITS),
        }
    );
    assert_eq!(input.viewports[&7].inner_rect, None);
    assert_eq!(bridge.viewports[&7].input.native_pixels_per_point, None);
    bridge.crash = true;
    let input = bridge.next_input(NO_KEYS);
    assert!(input.events.is_empty());
    assert_eq!(input.zoom_factor, Some(2));
}

#[test]
fn events_leave_the_queue_in_order() {
    let mut queue = crossbeam_queue::SegQueue::new();
    for n in 0..100 {
        queue.push(n);
    }
    assert_eq!(drain_events(&mut queue), (0..100).collect::<Vec<u64>>());
    assert!(drain_events(&mut queue).is_empty());
}

#[test]
fn focus_follows_the_viewports() {
    let mut bridge = started();
    bridge.spawn_viewport(7, 2, Some((ROOT, ViewportBuilder::default())));
    let (root, seven) = (control(ROOT, 1), control(7, 2));
    assert!(!root.on_notification(&mut bridge, ControlNotification::FocusEnter));
    assert!(!seven.on_notification(&mut bridge, ControlNotification::FocusEnter));
    assert!(!root.on_notification(&mut bridge, ControlNotification::FocusExit));
    let input = bridge.next_input(NO_KEYS);
    assert_eq!((input.viewport_id, input.focused), (7, true));
    assert_eq!(input.viewports[&ROOT].focused, Some(false));
    assert_eq!(input.viewports[&7].focused, Some(true));
    seven.on_notification(&mut bridge, ControlNotification::FocusExit);
    let input = bridge.next_input(NO_KEYS);
    assert_eq!((input.viewport_id, input.focused), (7, false));
    seven.on_notification(&mut bridge, ControlNotification::FocusEnter);
    bridge.despawn_viewport(7);
    let input = bridge.next_input(NO_KEYS);
    assert_eq!((input.viewport_id, input.focused), (ROOT, false));
}

#[test]
fn only_resizing_asks_for_a_repaint() {
    let mut bridge = started();
    let root = control(ROOT, 1);
    assert!(root.on_notification(&mut bridge, ControlNotification::Resized));
    assert!(!root.on_notification(&mut bridge, ControlNotification::Other));
    assert_eq!(bridge.viewports[&ROOT].input, ViewportInfo::new());
}

#[test]
fn replaced_control_is_ignored() {
    let mut bridge = started();
    bridge.spawn_viewport(7, 2, Some((ROOT, ViewportBuilder::default())));
    let stale = control(7, 2);
    bridge.spawn_viewport(7, 3, Some((ROOT, ViewportBuilder::default())));
    stale.on_notification(&mut bridge, ControlNotification::FocusExit);
    assert_eq!(stale.request_repaint(&mut bridge, some_rect()), 7);
    assert_eq!(bridge.viewports[&7].input, ViewportInfo::new());
    control(7, 3).request_repaint(&mut bridge, some_rect());
    assert_eq!(bridge.viewports[&7].input.inner_rect, Some(some_rect()));
    control(8, 4).request_repaint(&mut bridge, some_rect());
    assert!(!bridge.viewports.contains_key(&8));
}

#[test]
fn buttons_motions_and_keys_are_accepted() {
    let io = EguiViewportIoBridge::new();
    let kinds = |mouse_button, mouse_motion, key| InputKinds { mouse_button, mouse_motion, key };
    assert!(io.gui_input(kinds(true, false, false)));
    assert!(io.gui_input(kinds(false, true, false)));
    assert!(io.gui_input(kinds(false, false, true)));
    assert!(!io.gui_input(kinds(false, false, false)));
}

#[test]
fn new_viewport_is_spawned_in_a_window() {
    let mut bridge = started();
    let mut pass = bridge.begin_output(100);
    let title = ViewportBuilder::default().with_title("tools");
    match bridge.visit_viewport(&mut pass, put(7, title.clone())) {
        ViewportStep::Spawn { parent, setup } => {
            assert_eq!(parent, ROOT);
            assert!(setup == title);
            bridge.spawn_viewport(7, 2, Some((parent, setup)));
        }
        _ => panic!("not spawned"),
    }
    assert_eq!(bridge.viewports[&7].parent_id, Some(ROOT));
    assert_eq!(bridge.viewports[&7].control, 2);
    assert_eq!(bridge.viewports[&7].window, None);
    assert!(bridge.viewports[&7].window_setup == Some(title));
    assert_eq!(bridge.viewports[&ROOT].parent_id, None);
}

#[test]
fn patched_viewport_keeps_its_window() {
    let mut bridge = started();
    let title = ViewportBuilder::default().with_title("tools");
    bridge.spawn_viewport(7, 2, Some((ROOT, title)));
    let mut pass = bridge.begin_output(100);
    let wider = ViewportBuilder::default().with_inner_size([300.0, 200.0]);
    assert!(matches!(bridge.visit_viewport(&mut pass, put(7, wider)), ViewportStep::Keep));
    let merged = ViewportBuilder::default().with_title("tools").with_inner_size([300.0, 200.0]);
    assert_eq!(bridge.viewports[&7].control, 2);
    assert!(bridge.viewports[&7].window_setup == Some(merged));
}

#[test]
fn window_that_cannot_follow_is_made_anew() {
    let mut bridge = started();
    let title = ViewportBuilder::default().with_title("tools");
    bridge.spawn_viewport(7, 2, Some((ROOT, title)));
    let mut pass = bridge.begin_output(100);
    let hidden = ViewportBuilder::default().with_taskbar(false);
    match bridge.visit_viewport(&mut pass, put(7, hidden)) {
        ViewportStep::Respawn { freed, parent, setup } => {
            assert_eq!(freed, FreedViewport { id: 7, control: 2, window: None });
            assert_eq!(parent, ROOT);
            let merged = ViewportBuilder::default().with_title("tools").with_taskbar(false);
            assert!(setup == merged);
        }
        _ => panic!("not made anew"),
    }
    assert!(!bridge.viewports.contains_key(&7));
}

#[test]
fn window_is_freed_after_its_control() {
    let mut bridge = started();
    bridge.spawn_viewport(7, 2, Some((ROOT, ViewportBuilder::default())));
    bridge.viewports.get_mut(&7).unwrap().window = Some(30);
    assert_eq!(bridge.despawn_viewport(7).handles(), vec![2, 30]);
    assert_eq!(bridge.despawn_viewport(ROOT).handles(), vec![1]);
}

#[test]
fn root_starts_from_the_default_setup() {
    let mut bridge = started();
    let mut pass = bridge.begin_output(100);
    let step = bridge.visit_viewport(&mut pass, put(ROOT, ViewportBuilder::default()));
    assert!(matches!(step, ViewportStep::Keep));
    assert!(bridge.viewports[&ROOT].window_setup == Some(ViewportBuilder::default()));
    let mut pass = bridge.begin_output(100);
    let step =
        bridge.visit_viewport(&mut pass, put(ROOT, ViewportBuilder::default().with_active(true)));
    assert!(matches!(step, ViewportStep::Respawn { .. }));
}

#[test]
fn settling_a_patch_goes_by_its_outcome() {
    let mut bridge = started();
    let commands = vec![egui::ViewportCommand::Close, egui::ViewportCommand::Focus];
    let title = ViewportBuilder::default().with_title("main");
    let step = bridge.settle_patch(ROOT, ROOT, title.clone(), commands, false);
    assert!(matches!(step, ViewportStep::Keep));
    assert!(bridge.viewports[&ROOT].window_setup == Some(title.clone()));
    let step = bridge.settle_patch(ROOT, ROOT, title, vec![], true);
    assert!(matches!(step, ViewportStep::Respawn { .. }));
    assert!(bridge.viewports.is_empty());
}

#[test]
fn commands_change_nothing() {
    let mut bridge = started();
    let mut root = bridge.viewports.remove(&ROOT).unwrap();
    root.apply_commands(vec![
        egui::ViewportCommand::Close,
        egui::ViewportCommand::Title("other".to_string()),
        egui::ViewportCommand::Minimized(true),
        egui::ViewportCommand::Screenshot,
    ]);
    assert_eq!(root.control, 1);
    assert_eq!(root.input, ViewportInfo::new());
    assert!(root.window_setup.is_none() && root.window.is_none() && root.parent_id.is_none());
}

#[test]
fn pass_shows_what_was_put_out() {
    let mut bridge = started();
    for (id, control) in [(7, 2), (8, 3), (9, 4)] {
        bridge.spawn_viewport(id, control, Some((ROOT, ViewportBuilder::default())));
    }
    bridge.share.repaint_schedule.request(8, 0, 10);
    bridge.share.repaint_schedule.request(ROOT, 0, 200);
    let mut pass = bridge.begin_output(100);
    for id in [8, ROOT, 20] {
        let step = bridge.visit_viewport(&mut pass, put(id, ViewportBuilder::default()));
        if let ViewportStep::Spawn { parent, setup } = step {
            assert_eq!(id, 20);
            bridge.spawn_viewport(id, 5, Some((parent, setup)));
        }
        assert_eq!(bridge.settle_repaint(&mut pass, id), id == 8);
    }
    let mut freed: Vec<u64> = bridge.end_viewports(&mut pass).iter().map(|f| f.control).collect();
    freed.sort();
    assert_eq!(freed, vec![2, 4]);
    let mut shown: Vec<u64> = bridge.viewports.keys().copied().collect();
    shown.sort();
    assert_eq!(shown, vec![8, 20, ROOT]);
    assert_eq!(bridge.redraw_targets(&pass), vec![3]);
    assert!(!bridge.settle_repaint(&mut pass, 8));
    assert!(bridge.share.repaint_schedule.should_repaint(201));
}

#[test]
fn focus_arrives_in_either_order() {
    let mut bridge = started();
    bridge.spawn_viewport(7, 2, Some((ROOT, ViewportBuilder::default())));
    let (root, seven) = (control(ROOT, 1), control(7, 2));
    root.on_notification(&mut bridge, ControlNotification::FocusEnter);
    root.on_notification(&mut bridge, ControlNotification::FocusExit);
    seven.on_notification(&mut bridge, ControlNotification::FocusEnter);
    assert_eq!(bridge.share.latest_focus, LatestFocus { viewport: 7, focused: true });
    root.on_notification(&mut bridge, ControlNotification::FocusEnter);
    seven.on_notification(&mut bridge, ControlNotification::FocusExit);
    assert_eq!(bridge.share.latest_focus, LatestFocus { viewport: ROOT, focused: true });
}
