use egui::ViewportBuilder;
use egui_bridge::bridge::{EguiBridge, FrameStep};
use egui_bridge::control::{ControlNotification, EguiViewportIoBridge};
use egui_bridge::input::HeldKeys;
use egui_bridge::screen::Screen;
use egui_bridge::shared::LatestFocus;
use egui_bridge::viewport::{ViewportOutput, ViewportStep, ROOT};

const NO_KEYS: HeldKeys = HeldKeys { alt: false, ctrl: false, shift: false, meta: false };

fn new_bridge() -> EguiBridge {
    EguiBridge::new(egui::Context::default())
}

#[test]
fn steps_name_the_frame_calls() {
    let calls = |step: FrameStep| (step.ends_frame(), step.begins_frame());
    assert_eq!(calls(FrameStep::SpawnRoot), (false, true));
    assert_eq!(calls(FrameStep::Idle), (false, false));
    assert_eq!(calls(FrameStep::Render { target: None }), (true, true));
}

#[test]
fn one_frame_is_open_at_a_time() {
    let mut bridge = new_bridge();
    let screens = vec![Screen { x: 0, y: 0, width: 10, height: 10 }];
    let mut calls = String::new();
    for now in [5, 15, 25, 35, 45] {
        let step = bridge.on_process(&screens, now);
        if step.ends_frame() {
            calls.push_str("eh");
        }
        if step.begins_frame() {
            calls.push('b');
        }
        assert_eq!(calls.matches('b').count(), calls.matches('e').count() + 1);
        if now == 15 {
            bridge.share.repaint_schedule.request(ROOT, now, 5);
        }
    }
    if bridge.exit_tree().is_some() {
        calls.push('e');
    }
    assert_eq!(calls, "behbehbehbe");
}

#[test]
fn bridge_that_never_started_ends_no_frame() {
    let mut bridge = new_bridge();
    assert_eq!(bridge.exit_tree(), None);
}

#[test]
fn events_are_handed_over_once() {
    let mut bridge = new_bridge();
    let mut handed = Vec::new();
    bridge.share.events.push(1);
    assert_eq!(bridge.on_process(&vec![], 0), FrameStep::SpawnRoot);
    bridge.spawn_viewport(ROOT, 1, None);
    handed.extend(bridge.next_input(NO_KEYS).events);
    assert!(bridge.share.events.is_empty());
    bridge.share.events.push(2);
    bridge.share.events.push(3);
    assert_eq!(bridge.on_process(&vec![], 10), FrameStep::Idle);
    assert_eq!(bridge.share.events.len(), 2);
    bridge.share.events.push(4);
    handed.extend(bridge.next_input(NO_KEYS).events);
    bridge.share.events.push(5);
    assert_eq!(handed, vec![1, 2, 3, 4]);
    assert_eq!(bridge.share.events.len(), 1);
}

#[test]
fn every_viewport_has_a_node_of_its_own() {
    let mut bridge = new_bridge();
    let root = bridge.spawn_viewport(ROOT, 1, None);
    let seven = bridge.spawn_viewport(7, 2, Some((ROOT, ViewportBuilder::default())));
    assert_eq!(root, EguiViewportIoBridge { self_id: ROOT, control: 1 });
    assert_eq!(seven, EguiViewportIoBridge { self_id: 7, control: 2 });
    bridge.despawn_viewport(7);
    let again = bridge.spawn_viewport(7, 3, Some((ROOT, ViewportBuilder::default())));
    for node in [root, again] {
        assert_eq!(bridge.viewports[&node.self_id].control, node.control);
    }
}

#[test]
fn canvas_items_are_freed_once() {
    let mut bridge = new_bridge();
    bridge.on_process(&vec![], 0);
    let mut freed = Vec::new();
    let fit = bridge.fit_canvas(3, vec![11, 12, 13]);
    assert_eq!(fit.placed.len(), 3);
    assert_eq!(fit.placed[2].draw_index, 2);
    freed.extend(fit.freed);
    freed.extend(bridge.fit_canvas(1, vec![]).freed);
    freed.extend(bridge.fit_canvas(2, vec![14]).freed);
    assert_eq!(freed, vec![12, 13]);
    freed.extend(bridge.exit_tree().unwrap());
    assert_eq!(freed, vec![12, 13, 11, 14]);
    assert_eq!(bridge.canvas_items.len(), 0);
}

#[test]
fn context_stays_the_same() {
    let ctx = egui::Context::default();
    let mut bridge = EguiBridge::new(ctx.clone());
    bridge.on_process(&vec![], 0);
    bridge.spawn_viewport(ROOT, 1, None);
    bridge.next_input(NO_KEYS);
    bridge.share.repaint_schedule.request(ROOT, 0, 1);
    bridge.on_process(&vec![Screen { x: 1, y: 2, width: 3, height: 4 }], 9);
    assert!(bridge.egui_context() == ctx);
    bridge.exit_tree();
    assert!(bridge.egui_context() == ctx);
}

#[test]
fn last_to_gain_the_focus_is_the_latest() {
    let mut bridge = new_bridge();
    let nodes = [
        bridge.spawn_viewport(ROOT, 1, None),
        bridge.spawn_viewport(7, 2, Some((ROOT, ViewportBuilder::default()))),
        bridge.spawn_viewport(8, 3, Some((ROOT, ViewportBuilder::default()))),
    ];
    let notes = [
        (0, ControlNotification::FocusEnter),
        (1, ControlNotification::FocusEnter),
        (0, ControlNotification::FocusExit),
        (2, ControlNotification::FocusEnter),
        (1, ControlNotification::FocusExit),
        (1, ControlNotification::Resized),
        (0, ControlNotification::FocusExit),
    ];
    for (node, what) in notes {
        nodes[node].on_notification(&mut bridge, what);
    }
    assert_eq!(bridge.share.latest_focus, LatestFocus { viewport: 8, focused: true });
    assert_eq!(bridge.viewports[&ROOT].input.focused, Some(false));
    assert_eq!(bridge.viewports[&7].input.focused, Some(false));
    assert_eq!(bridge.viewports[&8].input.focused, Some(true));
    nodes[2].on_notification(&mut bridge, ControlNotification::FocusExit);
    assert_eq!(bridge.share.latest_focus, LatestFocus { viewport: 8, focused: false });
    assert_eq!(bridge.viewports[&8].input.focused, Some(false));
}

#[test]
fn step_carried_out_shows_the_viewport() {
    let mut bridge = new_bridge();
    bridge.spawn_viewport(ROOT, 1, None);
    bridge.spawn_viewport(7, 2, Some((ROOT, ViewportBuilder::default())));
    let mut pass = bridge.begin_output(0);
    let hidden = ViewportBuilder::default().with_taskbar(false);
    let put = ViewportOutput { id: 7, parent: ROOT, builder: hidden.clone() };
    match bridge.visit_viewport(&mut pass, put) {
        ViewportStep::Respawn { freed, parent, setup } => {
            assert_eq!(freed.control, 2);
            bridge.spawn_viewport(7, 3, Some((parent, setup)));
        }
        _ => panic!("not made anew"),
    }
    assert_eq!(bridge.viewports[&7].control, 3);
    assert_eq!(bridge.viewports[&7].parent_id, Some(ROOT));
    assert!(bridge.viewports[&7].window_setup == Some(hidden));
    assert_eq!(bridge.viewports[&ROOT].control, 1);
}
