use egui_bridge::screen::{render_target, total_screen_rect, RenderTarget, Screen, ScreenRect};

fn screen(x: i32, y: i32, width: i32, height: i32) -> Screen {
    Screen { x, y, width, height }
}

#[test]
fn two_screens_side_by_side() {
    let bound = total_screen_rect(&vec![screen(0, 0, 1920, 1080), screen(1920, -200, 2560, 1440)]);
    assert_eq!(bound, ScreenRect::Around { min_x: 0, min_y: -200, max_x: 4480, max_y: 1240 });
    assert_eq!(
        render_target(bound),
        RenderTarget { global_offset: (0, 0), size: (4480, 1440) }
    );
}

#[test]
fn screens_away_from_the_origin() {
    let bound = total_screen_rect(&vec![screen(100, 50, 10, 20)]);
    assert_eq!(
        render_target(bound),
        RenderTarget { global_offset: (100, 50), size: (10, 20) }
    );
}

#[test]
fn no_screens() {
    let bound = total_screen_rect(&vec![]);
    assert_eq!(bound, ScreenRect::Nothing);
    assert_eq!(
        render_target(bound),
        RenderTarget { global_offset: (u32::MAX, u32::MAX), size: (i32::MIN, i32::MIN) }
    );
}

#[test]
fn order_of_screens_does_not_matter() {
    let a = screen(-5, 3, 8, 8);
    let b = screen(2, -9, 100, 4);
    assert_eq!(total_screen_rect(&vec![a, b]), total_screen_rect(&vec![b, a]));
}

#[test]
fn far_coordinates_are_rounded() {
    let bound = total_screen_rect(&vec![screen(16777217, 16777219, 0, 0)]);
    assert_eq!(
        bound,
        ScreenRect::Around { min_x: 16777216, min_y: 16777220, max_x: 16777216, max_y: 16777220 }
    );
}

fn in_single_precision(screens: &[Screen]) -> (egui::Rect, RenderTarget) {
    let mut bound = egui::Rect::NOTHING;
    for s in screens {
        bound.extend_with(egui::pos2(s.x as f32, s.y as f32));
        bound.extend_with(egui::pos2((s.x + s.width) as f32, (s.y + s.height) as f32));
    }
    let size = bound.size();
    let target = RenderTarget {
        global_offset: (bound.min.x as u32, bound.min.y as u32),
        size: (size.x as i32, size.y as i32),
    };
    (bound, target)
}

#[test]
fn agrees_with_single_precision() {
    let values = [
        0, 1, -1, 1920, -1080, 16777215, 16777216, 16777217, 16777218, 16777219, -16777217,
        33554433, 33554435, 123456789, -987654321, 1073741823, 1073741825, -1073741824,
    ];
    for x in values {
        for w in values {
            for y in [0, 77, -33554435] {
                let screens = vec![screen(x, y, w, 16777217), screen(-3, w, 5, y)];
                let (bound, target) = in_single_precision(&screens);
                let held = total_screen_rect(&screens);
                assert_eq!(
                    held,
                    ScreenRect::Around {
                        min_x: bound.min.x as i64,
                        min_y: bound.min.y as i64,
                        max_x: bound.max.x as i64,
                        max_y: bound.max.y as i64,
                    }
                );
                assert_eq!(render_target(held), target);
            }
        }
    }
}

#[test]
fn widest_desktop_saturates() {
    let screens = vec![screen(i32::MIN, i32::MIN, 0, 0), screen(i32::MAX, i32::MAX, 0, 0)];
    let (_, target) = in_single_precision(&screens);
    assert_eq!(target.size, (i32::MAX, i32::MAX));
    assert_eq!(render_target(total_screen_rect(&screens)), target);
    let (_, target) = in_single_precision(&[]);
    assert_eq!(render_target(total_screen_rect(&vec![])), target);
}
