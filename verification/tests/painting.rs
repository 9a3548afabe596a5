use egui_bridge::bridge::EguiBridge;
use egui_bridge::canvas::{CanvasItems, PlacedItem};
use egui_bridge::mesh::{draw_mesh, Drawing, Line, Mesh, Point, Vertex};
use egui_bridge::texture::{Rgba, TextureDescriptor, TextureId};

fn point(x: f32, y: f32) -> Point {
    Point { x: x.to_bits(), y: y.to_bits() }
}

fn vertex(n: u8) -> Vertex {
    let f = n as f32;
    Vertex {
        pos: point(f, f + 0.5),
        uv: point(f / 10.0, 0.25),
        color: Rgba { r: n, g: 0, b: 0, a: 255 },
    }
}

fn triangle(texture_id: TextureId) -> Mesh {
    Mesh { indices: vec![0, 2, 1], vertices: vec![vertex(0), vertex(1), vertex(2)], texture_id }
}

fn empty_mesh(texture_id: TextureId) -> Mesh {
    Mesh { indices: vec![], vertices: vec![], texture_id }
}

#[test]
fn mesh_is_drawn_with_its_texture() {
    let mesh = triangle(TextureId::Managed(0));
    let texture = Some(TextureDescriptor { src_img: 1, tex: 2 });
    match draw_mesh(&mesh, texture, false) {
        Drawing::Mesh(d) => {
            assert!(d.lines.is_empty());
            assert_eq!(d.indices, vec![0, 2, 1]);
            assert_eq!(d.verts, vec![point(0.0, 0.5), point(1.0, 1.5), point(2.0, 2.5)]);
            assert_eq!(d.uvs, vec![point(0.0, 0.25), point(0.1, 0.25), point(0.2, 0.25)]);
            assert_eq!(d.colors[2], Rgba { r: 2, g: 0, b: 0, a: 255 });
            assert_eq!(d.texture, 2);
        }
        _ => panic!("not drawn"),
    }
}

#[test]
fn outlines_go_round_each_triangle() {
    let mesh = triangle(TextureId::Managed(0));
    let texture = Some(TextureDescriptor { src_img: 1, tex: 2 });
    match draw_mesh(&mesh, texture, true) {
        Drawing::Mesh(d) => {
            let (a, b, c) = (point(0.0, 0.5), point(2.0, 2.5), point(1.0, 1.5));
            assert_eq!(
                d.lines,
                vec![
                    Line { from: a, to: b },
                    Line { from: b, to: c },
                    Line { from: c, to: a },
                ]
            );
        }
        _ => panic!("not drawn"),
    }
}

#[test]
fn large_indices_turn_negative() {
    let mesh = Mesh {
        indices: vec![0x7fff_ffff, 0x8000_0000, 0xffff_ffff],
        vertices: vec![],
        texture_id: TextureId::User(4),
    };
    match draw_mesh(&mesh, Some(TextureDescriptor { src_img: 1, tex: 2 }), false) {
        Drawing::Mesh(d) => assert_eq!(d.indices, vec![i32::MAX, i32::MIN, -1]),
        _ => panic!("not drawn"),
    }
}

#[test]
fn missing_texture_is_reported() {
    let mesh = triangle(TextureId::User(8));
    match draw_mesh(&mesh, None, true) {
        Drawing::MissingTexture(id) => assert_eq!(id, TextureId::User(8)),
        _ => panic!("drawn"),
    }
}

#[test]
fn canvas_grows_and_shrinks_with_the_primitives() {
    let mut canvas = CanvasItems::new();
    assert_eq!(canvas.missing(3), 3);
    let fit = canvas.fit(3, vec![10, 11, 12]);
    assert_eq!(
        fit.placed,
        vec![
            PlacedItem { item: 10, draw_index: 0 },
            PlacedItem { item: 11, draw_index: 1 },
            PlacedItem { item: 12, draw_index: 2 },
        ]
    );
    assert!(fit.freed.is_empty());
    assert_eq!(canvas.missing(1), 0);
    let fit = canvas.fit(1, vec![]);
    assert!(fit.placed.is_empty());
    assert_eq!(fit.freed, vec![11, 12]);
    assert_eq!(canvas.missing(2), 1);
    let fit = canvas.fit(2, vec![20]);
    assert_eq!(fit.placed, vec![PlacedItem { item: 20, draw_index: 1 }]);
    assert_eq!((canvas.len(), canvas.item(0), canvas.item(1)), (2, 10, 20));
    assert_eq!(canvas.drain(), vec![10, 20]);
    assert_eq!(canvas.len(), 0);
}

#[test]
fn meshes_are_painted_in_order() {
    let mut bridge = EguiBridge::new(egui::Context::default());
    bridge.textures.settle(TextureId::Managed(0), 1, Some(2));
    bridge.canvas_items.fit(3, vec![10, 11, 12]);
    let meshes = vec![
        empty_mesh(TextureId::User(9)),
        triangle(TextureId::Managed(0)),
        triangle(TextureId::User(9)),
    ];
    let steps = bridge.paint(&meshes);
    assert_eq!(steps.len(), 3);
    assert_eq!((steps[0].item, steps[1].item, steps[2].item), (10, 11, 12));
    assert!(matches!(steps[0].drawing, Drawing::Nothing));
    assert!(matches!(steps[1].drawing, Drawing::Mesh(_)));
    assert!(matches!(steps[2].drawing, Drawing::MissingTexture(TextureId::User(9))));
}

#[test]
fn textures_are_dropped_after_painting() {
    let mut bridge = EguiBridge::new(egui::Context::default());
    let (kept, dropped, never) =
        (TextureId::Managed(0), TextureId::Managed(1), TextureId::User(9));
    bridge.textures.settle(kept, 1, Some(2));
    bridge.textures.settle(dropped, 3, Some(4));
    bridge.fit_canvas(2, vec![10, 11]);
    let meshes = vec![triangle(kept), triangle(dropped)];
    let (steps, found) = bridge.paint_and_free(&meshes, &vec![dropped, never]);
    assert_eq!(steps.len(), 2);
    assert!(matches!(&steps[0].drawing, Drawing::Mesh(d) if d.texture == 2));
    assert!(matches!(&steps[1].drawing, Drawing::Mesh(d) if d.texture == 4));
    assert_eq!(found, vec![Some(TextureDescriptor { src_img: 3, tex: 4 }), None]);
    assert!(bridge.textures.get(kept).is_some());
    assert!(bridge.textures.get(dropped).is_none());
    let (steps, _) = bridge.paint_and_free(&meshes, &vec![]);
    assert!(matches!(steps[1].drawing, Drawing::MissingTexture(id) if id == dropped));
}

#[test]
fn meshes_are_painted_with_what_was_set_last() {
    let mut bridge = EguiBridge::new(egui::Context::default());
    let id = TextureId::Managed(0);
    bridge.textures.settle(id, 1, Some(2));
    bridge.textures.settle(id, 5, Some(6));
    bridge.fit_canvas(1, vec![10]);
    let steps = bridge.paint(&vec![triangle(id)]);
    assert!(matches!(&steps[0].drawing, Drawing::Mesh(d) if d.texture == 6));
}

#[test]
fn vertex_lines_follow_the_switch() {
    let mut bridge = EguiBridge::new(egui::Context::default());
    bridge.textures.settle(TextureId::Managed(0), 1, Some(2));
    bridge.debug_show_vertex_lines = true;
    match bridge.render_mesh(&triangle(TextureId::Managed(0))) {
        Drawing::Mesh(d) => assert_eq!(d.lines.len(), 3),
        _ => panic!("not drawn"),
    }
}

#[test]
fn leaving_frees_every_canvas_item_once_started() {
    let mut bridge = EguiBridge::new(egui::Context::default());
    bridge.canvas_items.fit(2, vec![10, 11]);
    assert_eq!(bridge.exit_tree(), None);
    bridge.on_process(&vec![], 0);
    assert_eq!(bridge.exit_tree(), Some(vec![10, 11]));
    assert_eq!(bridge.exit_tree(), Some(vec![]));
}
