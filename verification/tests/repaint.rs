use egui_bridge::schedule::RepaintSchedule;

#[test]
fn empty_schedule_has_nothing_to_do() {
    let mut schedule = RepaintSchedule::new();
    assert!(!schedule.should_repaint(1000));
    assert!(!schedule.settle(7, 1000));
}

#[test]
fn repaint_waits_for_its_delay() {
    let mut schedule = RepaintSchedule::new();
    schedule.request(7, 100, 50);
    assert!(!schedule.should_repaint(150));
    assert!(schedule.should_repaint(151));
    assert!(!schedule.settle(7, 149));
    assert!(schedule.should_repaint(151));
    assert!(schedule.settle(7, 150));
    assert!(!schedule.settle(7, 150));
    assert!(!schedule.should_repaint(151));
}

#[test]
fn later_request_replaces_the_earlier_one() {
    let mut schedule = RepaintSchedule::new();
    schedule.request(7, 100, 0);
    schedule.request(7, 100, 900);
    assert!(!schedule.should_repaint(1000));
    assert!(!schedule.settle(7, 999));
    assert!(schedule.settle(7, 1000));
}

#[test]
fn settling_leaves_other_viewports_alone() {
    let mut schedule = RepaintSchedule::new();
    schedule.request(1, 0, 10);
    schedule.request(2, 0, 20);
    assert!(schedule.settle(1, 15));
    assert!(!schedule.settle(2, 15));
    assert!(schedule.settle(2, 25));
}

#[test]
fn expired_schedule_has_a_due_viewport() {
    let mut schedule = RepaintSchedule::new();
    schedule.request(1, 0, 10);
    schedule.request(2, 0, 20);
    assert!(schedule.should_repaint(11));
    assert!(schedule.settle(1, 11));
    assert!(!schedule.should_repaint(11));
}
