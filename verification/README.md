# egui_bridge

Shows egui viewports inside a game engine's scene tree.

- `src/` is the verified library: which viewports, textures and canvas items there are, when each
  viewport is painted again, which viewport has the focus, and what is to be done in each frame.
  Everything the engine or egui has to do is handed out as a plain value. Single-precision
  coordinates are carried by their bits, objects of the engine by their handles.
- `src/life.rs` states what holds over the whole life of a bridge: frames are begun, ended and
  handled in turn, events are handed over once and in order, every viewport has a node of its own,
  and every canvas item is given up in the end.
- `src/outside.rs` lists what the library takes from egui and crossbeam without proof.
- `app/` holds the two nodes that carry the decisions out.
- `tests/` runs the library with the real crates linked.

A frame goes like this:

1. `EguiBridge::on_process` looks at the screens and the clock. It asks for the root viewport in
   the first frame, has nothing to do while no repaint has expired, and otherwise has the frame
   before ended and put out.
2. `begin_output`, `visit_viewport`, `settle_repaint` and `end_viewports` bring the viewports in
   line with what egui put out.
3. `upload_image` and `TextureTable` settle the textures; `fit_canvas` and `paint_and_free`
   settle what is drawn and which textures go after that; `redraw_targets` names the controls that
   have to be drawn again.
4. `next_input` puts the focus right and gathers what egui is told about the next frame.
