//! The bridge between egui and the engine: which viewports, textures and canvas items there are,
//! and what is to be done in each frame.

use crate::canvas::{freed_items, kept_items, missing_items, placed_behind, CanvasFit, CanvasItems};
use crate::control::EguiViewportIoBridge;
use crate::input::{unscaled_infos, viewport_infos, FrameInput, HeldKeys, MAX_TEXTURE_SIDE};
use crate::life::{happens, Act};
use crate::mesh::{draw_mesh, Drawing, Mesh};
use crate::outside::{patch_setup, patched, queued};
use crate::schedule::{any_expired, is_due, settled};
use crate::screen::{
    render_target, screens_rect, target_over, total_screen_rect, RenderTarget, Screen, ScreenRect,
};
use crate::shared::{drain_events, LatestFocus, ScreenBuffer, SharedContext};
use crate::texture::{found_in_turn, TextureDescriptor, TextureId, TextureTable};
use crate::viewport::{
    carried_out, members, met, shown_ids, viewports_after, FreedViewport, ViewportContext,
    ViewportInfo, ViewportOutput, ViewportPass, ViewportStep, ROOT,
};
use egui::{Context, ViewportBuilder, ViewportCommand};
use std::collections::HashMap;
use vstd::prelude::*;

verus! {

broadcast use vstd::std_specs::hash::group_hash_axioms;

/// The state of the bridge.
pub struct EguiBridge {
    /// Whether a frame has been begun.
    pub started: bool,
    pub viewports: HashMap<u64, ViewportContext>,
    pub textures: TextureTable,
    pub canvas_items: CanvasItems,
    pub share: SharedContext,
    /// The area that the render target was last laid over.
    pub cached_screen_rect: ScreenRect,
    /// Whether the outlines of all triangles are to be seen.
    pub debug_show_vertex_lines: bool,
    /// Whether everything is enlarged, to provoke a fault.
    pub crash: bool,
}

/// What a frame starts with.
#[derive(Clone, Copy, Debug, PartialEq, Eq)]
pub enum FrameStep {
    /// It is the first: the root viewport is to be spawned.
    SpawnRoot,
    /// No viewport is to be painted again: there is nothing to do.
    Idle,
    /// The frame before it is to be ended and put out, over a new render target if there is one.
    Render { target: Option<RenderTarget> },
}

impl FrameStep {
    /// Whether the frame before is ended, and its output handled.
    pub open spec fn ends(self) -> bool {
        self is Render
    }

    /// Whether a frame is begun.
    pub open spec fn begins(self) -> bool {
        !(self is Idle)
    }

    /// Whether the frame before is to be ended, and its output handled.
    pub fn ends_frame(&self) -> (ends: bool)
        ensures
            ends == self.ends(),
            ends <==> *self is Render,
    {
        match self {
            FrameStep::Render { target: _ } => true,
            _ => false,
        }
    }

    /// Whether a frame is to be begun, after the one before was ended.
    pub fn begins_frame(&self) -> (begins: bool)
        ensures
            begins == self.begins(),
            begins <==> !(*self is Idle),
    {
        match self {
            FrameStep::Idle => false,
            _ => true,
        }
    }
}

/// What is painted onto a canvas item, once it has been cleared.
pub struct PaintStep {
    pub item: u64,
    pub drawing: Drawing,
}

impl EguiBridge {
    /// A bridge over which nothing has gone yet.
    pub fn new(ctx: Context) -> (bridge: EguiBridge)
        ensures
            !bridge.started,
            bridge.viewports@ == Map::<u64, ViewportContext>::empty(),
            bridge.textures@ == Map::<TextureId, TextureDescriptor>::empty(),
            bridge.canvas_items@ == Seq::<u64>::empty(),
            bridge.share.ctx == ctx,
            bridge.share.screen.global_offset == (0u32, 0u32),
            bridge.share.latest_focus == LatestFocus::initial(),
            queued(bridge.share.events) == Seq::<u64>::empty(),
            bridge.share.repaint_schedule@ == Map::<u64, u128>::empty(),
            bridge.cached_screen_rect == ScreenRect::Nothing,
            !bridge.debug_show_vertex_lines,
            !bridge.crash,
    {
        EguiBridge {
            started: false,
            viewports: HashMap::new(),
            textures: TextureTable::new(),
            canvas_items: CanvasItems::new(),
            share: SharedContext::new(ctx),
            cached_screen_rect: ScreenRect::Nothing,
            debug_show_vertex_lines: false,
            crash: false,
        }
    }

    /// A handle to the context that user interfaces are drawn with.
    pub fn egui_context(&self) -> (ctx: Context)
        ensures
            ctx == self.share.ctx,
    {
        self.share.ctx.clone()
    }

    /// The bridge after a new render target was laid over the screens, where they have changed.
    pub open spec fn retargeted(self, bound: ScreenRect) -> EguiBridge {
        if self.cached_screen_rect == bound {
            self
        } else {
            EguiBridge {
                cached_screen_rect: bound,
                share: SharedContext {
                    screen: ScreenBuffer {
                        global_offset: target_over(bound).global_offset,
                    },
                    ..self.share
                },
                ..self
            }
        }
    }

    /// Begins a frame, with the screens and the time as they are found.
    pub fn on_process(&mut self, screens: &Vec<Screen>, now: u128) -> (step: FrameStep)
        requires
            forall|i: int| 0 <= i < screens@.len() ==> (#[trigger] screens@[i]).fits(),
        ensures
            !old(self).started ==> step == FrameStep::SpawnRoot && *final(self) == (EguiBridge {
                started: true,
                ..*old(self)
            }),
            old(self).started && !any_expired(old(self).share.repaint_schedule@, now) ==> step
                == FrameStep::Idle && *final(self) == *old(self),
            old(self).started && any_expired(old(self).share.repaint_schedule@, now) ==> {
                let bound = screens_rect(screens@);
                &&& *final(self) == old(self).retargeted(bound)
                &&& step == (FrameStep::Render {
                    target: if old(self).cached_screen_rect == bound {
                        None
                    } else {
                        Some(target_over(bound))
                    },
                })
            },
            happens(*old(self), (Act::Process { step }), *final(self)),
    {
        let bound = total_screen_rect(screens);
        if !self.started {
            self.started = true;
            FrameStep::SpawnRoot
        } else if !self.share.repaint_schedule.should_repaint(now) {
            FrameStep::Idle
        } else if self.cached_screen_rect != bound {
            let target = render_target(bound);
            self.cached_screen_rect = bound;
            self.share.screen.global_offset = target.global_offset;
            FrameStep::Render { target: Some(target) }
        } else {
            FrameStep::Render { target: None }
        }
    }

    /// Tells egui what a frame starts with. All input events are handed over, and the focus is
    /// put right first if it was on a viewport that is gone.
    pub fn next_input(&mut self, keys: HeldKeys) -> (input: FrameInput)
        requires
            old(self).viewports@.contains_key(ROOT),
        ensures
            ({
                let focus = old(self).share.latest_focus.among(old(self).viewports@.dom());
                &&& *final(self) == (EguiBridge {
                    share: SharedContext {
                        latest_focus: focus,
                        events: final(self).share.events,
                        ..old(self).share
                    },
                    ..*old(self)
                })
                &&& queued(final(self).share.events) == Seq::<u64>::empty()
                &&& old(self).viewports@.contains_key(old(self).share.latest_focus.viewport)
                    ==> final(self).share.latest_focus == old(self).share.latest_focus
                &&& !old(self).viewports@.contains_key(old(self).share.latest_focus.viewport)
                    ==> final(self).share.latest_focus == (LatestFocus {
                    viewport: ROOT,
                    focused: false,
                })
                &&& input.viewport_id == final(self).share.latest_focus.viewport
                &&& input.focused == final(self).share.latest_focus.focused
                &&& input.viewport_id == focus.viewport
                &&& input.focused == focus.focused
                &&& input.events@ == queued(old(self).share.events)
                &&& input.viewports@ == unscaled_infos(old(self).viewports@)
                &&& input.screen_rect == old(self).viewports@[ROOT].input.inner_rect
                &&& input.max_texture_side == Some(MAX_TEXTURE_SIDE)
                &&& input.max_texture_side == Some(8192usize)
                &&& input.modifiers == keys.as_modifiers()
                &&& input.zoom_factor == (if old(self).crash {
                    Some(2u32)
                } else {
                    None
                })
            }),
            happens(*old(self), (Act::Input { events: input.events@ }), *final(self)),
    {
        if !self.viewports.contains_key(&self.share.latest_focus.viewport) {
            self.share.latest_focus = LatestFocus { viewport: ROOT, focused: false };
        }
        let focus = self.share.latest_focus;
        let screen_rect = match self.viewports.get(&ROOT) {
            Some(root) => root.input.inner_rect,
            None => None,
        };
        let events = drain_events(&mut self.share.events);
        FrameInput {
            viewport_id: focus.viewport,
            viewports: viewport_infos(&self.viewports),
            screen_rect,
            max_texture_side: Some(MAX_TEXTURE_SIDE),
            modifiers: keys.modifiers(),
            events,
            focused: focus.focused,
            zoom_factor: if self.crash {
                Some(2)
            } else {
                None
            },
        }
    }

    /// Shows a viewport in a control: in a window, as asked for by its parent, or without one.
    /// The control is tied to its viewport by what is returned.
    pub fn spawn_viewport(
        &mut self,
        id: u64,
        control: u64,
        windowing: Option<(u64, ViewportBuilder)>,
    ) -> (io: EguiViewportIoBridge)
        ensures
            io == (EguiViewportIoBridge { self_id: id, control }),
            final(self).viewports@ == old(self).viewports@.insert(
                id,
                ViewportContext::spawned(control, windowing),
            ),
            *final(self) == (EguiBridge { viewports: final(self).viewports, ..*old(self) }),
            happens(*old(self), (Act::Spawn { io }), *final(self)),
    {
        let mut io = EguiViewportIoBridge::new();
        io.initiate(id, control);
        let mut context = ViewportContext {
            parent_id: None,
            control,
            input: ViewportInfo::new(),
            window: None,
            window_setup: None,
        };
        if let Some((parent, setup)) = windowing {
            context.window_setup = Some(setup);
            context.parent_id = Some(parent);
        }
        self.viewports.insert(id, context);
        io
    }

    /// Takes down a viewport, and gives up the objects behind it.
    pub fn despawn_viewport(&mut self, id: u64) -> (freed: FreedViewport)
        requires
            old(self).viewports@.contains_key(id),
        ensures
            freed == old(self).viewports@[id].freed(id),
            freed.free_order() == (match old(self).viewports@[id].window {
                Some(window) => seq![old(self).viewports@[id].control, window],
                None => seq![old(self).viewports@[id].control],
            }),
            final(self).viewports@ == old(self).viewports@.remove(id),
            *final(self) == (EguiBridge { viewports: final(self).viewports, ..*old(self) }),
            happens(*old(self), (Act::Remove { ids: set![id] }), *final(self)),
    {
        let context = self.viewports.remove(&id).unwrap();
        FreedViewport { id, control: context.control, window: context.window }
    }

    /// Begins the pass over the viewports that egui puts out for a frame.
    pub fn begin_output(&self, now: u128) -> (pass: ViewportPass)
        ensures
            pass.pending@ == self.viewports@.dom(),
            pass.repainted@ == Seq::<u64>::empty(),
            pass.now == now,
            pass.fits(self.viewports@.dom()),
    {
        ViewportPass { pending: shown_ids(&self.viewports), repainted: Vec::new(), now }
    }

    /// Meets a viewport that egui puts out. One that was not shown is to be spawned. One that
    /// was takes on what is newly asked of its window, if need be in a new one.
    pub fn visit_viewport(&mut self, pass: &mut ViewportPass, put: ViewportOutput) -> (step:
        ViewportStep)
        requires
            old(pass).pending@.contains(put.id) ==> old(self).viewports@.contains_key(put.id),
        ensures
            *final(pass) == (ViewportPass { pending: final(pass).pending, ..*old(pass) }),
            final(pass).pending@ == old(pass).pending@.remove(put.id),
            *final(self) == (EguiBridge { viewports: final(self).viewports, ..*old(self) }),
            if old(pass).pending@.contains(put.id) {
                let before = old(self).viewports@;
                let outcome = patched(before[put.id].window_setup, put.builder);
                &&& step == before[put.id].step_after(put.id, put.parent, outcome.0, outcome.1)
                &&& final(self).viewports@ == viewports_after(before, put.id, outcome.0, outcome.1)
            } else {
                &&& step == (ViewportStep::Spawn { parent: put.parent, setup: put.builder })
                &&& final(self).viewports@ == old(self).viewports@
            },
            forall|control: u64|
                carried_out(final(self).viewports@, put.id, step, control) == #[trigger] met(
                    old(self).viewports@,
                    old(pass).pending@,
                    put,
                    control,
                ),
            happens(*old(self), Act::after(put.id, step), *final(self)),
            old(pass).fits(old(self).viewports@.dom()) ==> final(pass).fits(
                final(self).viewports@.dom(),
            ),
    {
        if !pass.pending.remove(&put.id) {
            return ViewportStep::Spawn { parent: put.parent, setup: put.builder };
        }
        let mut context = self.viewports.remove(&put.id).unwrap();
        let (setup, commands, recreate) = patch_setup(context.window_setup, put.builder);
        context.window_setup = None;
        self.viewports.insert(put.id, context);
        let step = self.settle_patch(put.id, put.parent, setup, commands, recreate);
        assert(self.viewports@ =~= viewports_after(old(self).viewports@, put.id, setup, recreate));
        step
    }

    /// Gives a viewport's window the setup that was merged for it, or takes the viewport down if
    /// the window has to be made anew.
    pub fn settle_patch(
        &mut self,
        id: u64,
        parent: u64,
        setup: ViewportBuilder,
        commands: Vec<ViewportCommand>,
        recreate: bool,
    ) -> (step: ViewportStep)
        requires
            old(self).viewports@.contains_key(id),
        ensures
            step == old(self).viewports@[id].step_after(id, parent, setup, recreate),
            final(self).viewports@ == viewports_after(old(self).viewports@, id, setup, recreate),
            *final(self) == (EguiBridge { viewports: final(self).viewports, ..*old(self) }),
            happens(*old(self), Act::after(id, step), *final(self)),
    {
        if recreate {
            let freed = self.despawn_viewport(id);
            ViewportStep::Respawn { freed, parent, setup }
        } else {
            let mut context = self.viewports.remove(&id).unwrap();
            context.window_setup = Some(setup);
            context.apply_commands(commands);
            self.viewports.insert(id, context);
            assert(self.viewports@ =~= viewports_after(
                old(self).viewports@,
                id,
                setup,
                recreate,
            ));
            ViewportStep::Keep
        }
    }

    /// Finds out whether a viewport that was met is to be painted, and if so takes it off the
    /// schedule.
    pub fn settle_repaint(&mut self, pass: &mut ViewportPass, id: u64) -> (due: bool)
        ensures
            due == is_due(old(self).share.repaint_schedule@, id, old(pass).now),
            final(self).share.repaint_schedule@ == settled(
                old(self).share.repaint_schedule@,
                id,
                old(pass).now,
            ),
            *final(self) == (EguiBridge {
                share: SharedContext {
                    repaint_schedule: final(self).share.repaint_schedule,
                    ..old(self).share
                },
                ..*old(self)
            }),
            happens(*old(self), Act::Other, *final(self)),
            *final(pass) == (ViewportPass { repainted: final(pass).repainted, ..*old(pass) }),
            final(pass).repainted@ == (if due {
                old(pass).repainted@.push(id)
            } else {
                old(pass).repainted@
            }),
            old(pass).fits(old(self).viewports@.dom()) && old(self).viewports@.contains_key(id)
                && !old(pass).pending@.contains(id) ==> final(pass).fits(
                final(self).viewports@.dom(),
            ),
    {
        let due = self.share.repaint_schedule.settle(id, pass.now);
        if due {
            pass.repainted.push(id);
        }
        due
    }

    /// Takes down the viewports that egui did not put out.
    pub fn end_viewports(&mut self, pass: &mut ViewportPass) -> (freed: Vec<FreedViewport>)
        requires
            old(pass).pending@.subset_of(old(self).viewports@.dom()),
        ensures
            final(self).viewports@ == old(self).viewports@.remove_keys(old(pass).pending@),
            *final(self) == (EguiBridge { viewports: final(self).viewports, ..*old(self) }),
            happens(*old(self), (Act::Remove { ids: old(pass).pending@ }), *final(self)),
            final(pass).pending@ == Set::<u64>::empty(),
            *final(pass) == (ViewportPass { pending: final(pass).pending, ..*old(pass) }),
            old(pass).fits(old(self).viewports@.dom()) ==> final(pass).fits(
                final(self).viewports@.dom(),
            ),
            freed@.map_values(|f: FreedViewport| f.id).no_duplicates(),
            freed@.map_values(|f: FreedViewport| f.id).to_set() == old(pass).pending@,
            forall|i: int|
                0 <= i < freed@.len() ==> #[trigger] freed@[i] == old(
                    self,
                ).viewports@[freed@[i].id].freed(freed@[i].id),
    {
        let ids = members(&pass.pending);
        let mut freed: Vec<FreedViewport> = Vec::new();
        let ghost shown = self.viewports@;
        let ghost pending = pass.pending@;
        let mut i: usize = 0;
        while i < ids.len()
            invariant
                i <= ids@.len(),
                ids@.no_duplicates(),
                ids@.to_set() == pending,
                pending.subset_of(shown.dom()),
                shown == old(self).viewports@,
                *self == (EguiBridge { viewports: self.viewports, ..*old(self) }),
                self.viewports@ == shown.remove_keys(ids@.take(i as int).to_set()),
                freed@ == ids@.take(i as int).map_values(|id: u64| shown[id].freed(id)),
            decreases ids.len() - i,
        {
            let id = ids[i];
            assert(pending.contains(id));
            assert(!ids@.take(i as int).contains(id));
            freed.push(self.despawn_viewport(id));
            i = i + 1;
            assert(ids@.take(i as int) =~= ids@.take(i - 1).push(id));
            proof {
                ids@.take(i - 1).lemma_push_to_set_commute(id);
            }
            assert(self.viewports@ =~= shown.remove_keys(ids@.take(i as int).to_set()));
            assert(freed@ =~= ids@.take(i as int).map_values(|id: u64| shown[id].freed(id)));
        }
        assert(ids@.take(i as int) =~= ids@);
        assert(freed@.map_values(|f: FreedViewport| f.id) =~= ids@);
        pass.pending.clear();
        freed
    }

    /// The controls to be drawn again, for the viewports that the pass found due.
    pub fn redraw_targets(&self, pass: &ViewportPass) -> (controls: Vec<u64>)
        requires
            forall|i: int|
                0 <= i < pass.repainted@.len() ==> self.viewports@.contains_key(
                    #[trigger] pass.repainted@[i],
                ),
        ensures
            controls@ == pass.repainted@.map_values(|id: u64| self.viewports@[id].control),
    {
        let mut controls: Vec<u64> = Vec::new();
        let mut i: usize = 0;
        while i < pass.repainted.len()
            invariant
                i <= pass.repainted@.len(),
                forall|i: int|
                    0 <= i < pass.repainted@.len() ==> self.viewports@.contains_key(
                        #[trigger] pass.repainted@[i],
                    ),
                controls@ == pass.repainted@.take(i as int).map_values(
                    |id: u64| self.viewports@[id].control,
                ),
            decreases pass.repainted.len() - i,
        {
            assert(self.viewports@.contains_key(pass.repainted@[i as int]));
            let viewport = self.viewports.get(&pass.repainted[i]).unwrap();
            controls.push(viewport.control);
            i = i + 1;
            assert(controls@ =~= pass.repainted@.take(i as int).map_values(
                |id: u64| self.viewports@[id].control,
            ));
        }
        assert(pass.repainted@.take(i as int) =~= pass.repainted@);
        controls
    }

    /// Takes up the canvas items that were missing for so many primitives, and gives up those that
    /// are not needed.
    pub fn fit_canvas(&mut self, primitives: usize, fresh: Vec<u64>) -> (fit: CanvasFit)
        requires
            fresh@.len() == missing_items(old(self).canvas_items@, primitives as nat),
        ensures
            final(self).canvas_items@ == kept_items(
                old(self).canvas_items@,
                fresh@,
                primitives as nat,
            ),
            *final(self) == (EguiBridge { canvas_items: final(self).canvas_items, ..*old(self) }),
            fit.placed@ == placed_behind(old(self).canvas_items@, fresh@),
            fit.freed@ == freed_items(old(self).canvas_items@, fresh@, primitives as nat),
            happens(
                *old(self),
                (Act::Fit { primitives: primitives as nat, fresh: fresh@, freed: fit.freed@ }),
                *final(self),
            ),
    {
        self.canvas_items.fit(primitives, fresh)
    }

    /// Whether the mesh can be drawn: its outlines can, where they are to be.
    pub open spec fn can_render(self, mesh: Mesh) -> bool {
        self.textures@.contains_key(mesh.texture_id) && self.debug_show_vertex_lines
            ==> mesh.is_outlinable()
    }

    /// Whether this is what is drawn for a mesh that is not empty.
    pub open spec fn renders(self, mesh: Mesh, drawing: Drawing) -> bool {
        if self.textures@.contains_key(mesh.texture_id) {
            drawing matches Drawing::Mesh(d) && d.draws(
                mesh,
                self.textures@[mesh.texture_id].tex,
                self.debug_show_vertex_lines,
            )
        } else {
            drawing == Drawing::MissingTexture(mesh.texture_id)
        }
    }

    /// Draws a mesh.
    pub fn render_mesh(&self, mesh: &Mesh) -> (drawing: Drawing)
        requires
            self.can_render(*mesh),
        ensures
            self.renders(*mesh, drawing),
    {
        draw_mesh(mesh, self.textures.get(mesh.texture_id), self.debug_show_vertex_lines)
    }

    /// Whether this is what is painted for the mesh at a place in drawing order.
    pub open spec fn paints(self, index: int, mesh: Mesh, step: PaintStep) -> bool {
        &&& step.item == self.canvas_items@[index]
        &&& if mesh.has_nothing() {
            step.drawing == Drawing::Nothing
        } else {
            self.renders(mesh, step.drawing)
        }
    }

    /// Paints each mesh onto the canvas item at its place.
    pub fn paint(&self, meshes: &Vec<Mesh>) -> (steps: Vec<PaintStep>)
        requires
            meshes@.len() <= self.canvas_items@.len(),
            forall|i: int|
                0 <= i < meshes@.len() ==> (#[trigger] meshes@[i]).has_nothing() || self.can_render(
                    meshes@[i],
                ),
        ensures
            steps@.len() == meshes@.len(),
            forall|i: int|
                0 <= i < meshes@.len() ==> self.paints(i, meshes@[i], #[trigger] steps@[i]),
    {
        let mut steps: Vec<PaintStep> = Vec::new();
        let mut i: usize = 0;
        while i < meshes.len()
            invariant
                i <= meshes@.len(),
                meshes@.len() <= self.canvas_items@.len(),
                forall|i: int|
                    0 <= i < meshes@.len() ==> (#[trigger] meshes@[i]).has_nothing()
                        || self.can_render(meshes@[i]),
                steps@.len() == i,
                forall|j: int| 0 <= j < i ==> self.paints(j, meshes@[j], #[trigger] steps@[j]),
            decreases meshes.len() - i,
        {
            let mesh = &meshes[i];
            let item = self.canvas_items.item(i);
            let drawing = if mesh.is_empty() {
                Drawing::Nothing
            } else {
                self.render_mesh(mesh)
            };
            steps.push(PaintStep { item, drawing });
            i = i + 1;
        }
        steps
    }

    /// Paints each mesh onto the canvas item at its place, and drops textures after that: a mesh
    /// can still be painted with one that is dropped. For each texture dropped, gives the objects
    /// behind it, where it was still there.
    pub fn paint_and_free(&mut self, meshes: &Vec<Mesh>, ids: &Vec<TextureId>) -> (outcome: (
        Vec<PaintStep>,
        Vec<Option<TextureDescriptor>>,
    ))
        requires
            meshes@.len() <= old(self).canvas_items@.len(),
            forall|i: int|
                0 <= i < meshes@.len() ==> (#[trigger] meshes@[i]).has_nothing() || old(
                    self,
                ).can_render(meshes@[i]),
        ensures
            outcome.0@.len() == meshes@.len(),
            forall|i: int|
                0 <= i < meshes@.len() ==> old(self).paints(
                    i,
                    meshes@[i],
                    #[trigger] outcome.0@[i],
                ),
            outcome.1@ == found_in_turn(old(self).textures@, ids@),
            final(self).textures@ == old(self).textures@.remove_keys(ids@.to_set()),
            *final(self) == (EguiBridge { textures: final(self).textures, ..*old(self) }),
            happens(*old(self), Act::Other, *final(self)),
    {
        let steps = self.paint(meshes);
        let found = self.textures.free(ids);
        (steps, found)
    }

    /// Takes the bridge down: gives up every canvas item, unless no frame was ever begun.
    pub fn exit_tree(&mut self) -> (freed: Option<Vec<u64>>)
        ensures
            !old(self).started ==> freed is None && *final(self) == *old(self),
            old(self).started ==> {
                &&& freed matches Some(items) && items@ == old(self).canvas_items@
                &&& final(self).canvas_items@ == Seq::<u64>::empty()
                &&& *final(self) == (EguiBridge {
                    canvas_items: final(self).canvas_items,
                    ..*old(self)
                })
            },
            happens(*old(self), Act::exit(freed), *final(self)),
    {
        if !self.started {
            None
        } else {
            Some(self.canvas_items.drain())
        }
    }
}

/// Once a render target was laid over the screens, there is no new one until they change.
pub proof fn law_target_is_laid_once(bridge: EguiBridge, bound: ScreenRect)
    ensures
        bridge.retargeted(bound).cached_screen_rect == bound,
        bridge.retargeted(bound).retargeted(bound) == bridge.retargeted(bound),
{
}

/// Once a texture was set, a mesh is painted with what it was set to, whatever was there before.
pub proof fn law_set_texture_is_painted_with(
    before: EguiBridge,
    after: EguiBridge,
    descriptor: TextureDescriptor,
    index: int,
    mesh: Mesh,
    step: PaintStep,
)
    requires
        after.textures@ == before.textures@.insert(mesh.texture_id, descriptor),
        !mesh.has_nothing(),
        after.paints(index, mesh, step),
    ensures
        step.drawing matches Drawing::Mesh(drawing) && drawing.texture == descriptor.tex,
{
}

/// A frame is ended exactly where there is one to put out, and one is begun unless there is
/// nothing to do: an idle step does neither, the first only begins, and every other does both.
pub proof fn law_steps_end_and_begin_frames(step: FrameStep)
    ensures
        step is SpawnRoot ==> !step.ends() && step.begins(),
        step is Idle ==> !step.ends() && !step.begins(),
        step is Render ==> step.ends() && step.begins(),
{
}

/// A new render target is laid over the screens exactly where they have changed: then its corner
/// is taken note of, and the area. Nothing else about the bridge changes.
pub proof fn law_target_follows_the_screens(bridge: EguiBridge, bound: ScreenRect)
    ensures
        ({
            let after = bridge.retargeted(bound);
            &&& after.cached_screen_rect == bound
            &&& bridge.cached_screen_rect == bound ==> after == bridge
            &&& bridge.cached_screen_rect != bound ==> after.share.screen.global_offset
                == target_over(bound).global_offset
            &&& after.started == bridge.started
            &&& after.viewports == bridge.viewports
            &&& after.textures == bridge.textures
            &&& after.canvas_items == bridge.canvas_items
            &&& after.share.ctx == bridge.share.ctx
            &&& after.share.latest_focus == bridge.share.latest_focus
            &&& after.share.events == bridge.share.events
            &&& after.share.repaint_schedule == bridge.share.repaint_schedule
            &&& after.debug_show_vertex_lines == bridge.debug_show_vertex_lines
            &&& after.crash == bridge.crash
        }),
{
}

/// Each mesh is painted onto the item at its place: nothing for an empty one, the name of the
/// texture where that is missing, and otherwise the mesh with the texture, its vertices taken over
/// one by one, and with outlines exactly if they are to be seen.
pub proof fn law_mesh_is_painted_with_its_texture(
    bridge: EguiBridge,
    index: int,
    mesh: Mesh,
    step: PaintStep,
)
    requires
        bridge.paints(index, mesh, step),
    ensures
        step.item == bridge.canvas_items@[index],
        mesh.indices@.len() == 0 && mesh.vertices@.len() == 0 <==> step.drawing is Nothing,
        !(step.drawing is Nothing) ==> (step.drawing is MissingTexture
            <==> !bridge.textures@.contains_key(mesh.texture_id)),
        step.drawing matches Drawing::MissingTexture(id) ==> id == mesh.texture_id,
        step.drawing matches Drawing::Mesh(d) ==> {
            &&& d.draws(
                mesh,
                bridge.textures@[mesh.texture_id].tex,
                bridge.debug_show_vertex_lines,
            )
            &&& d.texture == bridge.textures@[mesh.texture_id].tex
            &&& d.indices@.len() == mesh.indices@.len()
            &&& d.lines@.len() == (if bridge.debug_show_vertex_lines {
                mesh.indices@.len()
            } else {
                0
            })
            &&& d.verts@.len() == mesh.vertices@.len()
            &&& forall|i: int|
                0 <= i < mesh.vertices@.len() ==> {
                    let vertex = #[trigger] mesh.vertices@[i];
                    &&& d.verts@[i] == vertex.pos
                    &&& d.uvs@[i] == vertex.uv
                    &&& d.colors@[i] == vertex.color
                }
        },
{
}

} // verus!
