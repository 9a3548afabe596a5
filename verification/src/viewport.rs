//! The viewports, and the pass that brings them in line with what egui puts out for a frame.

use crate::mesh::Point;
use crate::outside::patched;
use egui::{ViewportBuilder, ViewportCommand};
use std::collections::{HashMap, HashSet};
use vstd::prelude::*;

verus! {

broadcast use vstd::std_specs::hash::group_hash_axioms;

/// The viewport that every other one descends from.
pub const ROOT: u64 = 0xffff_ffff_ffff_ffff;

/// The bits of the single-precision number one.
pub const ONE_BITS: u32 = 0x3f80_0000;

/// A rectangle between two corners.
#[derive(Clone, Copy, Debug, PartialEq, Eq)]
pub struct Rect {
    pub min: Point,
    pub max: Point,
}

/// What egui is told about a viewport.
#[derive(Clone, Copy, Debug, PartialEq, Eq)]
pub struct ViewportInfo {
    /// Where the viewport lies on the desktop, once that is known.
    pub inner_rect: Option<Rect>,
    /// Whether it has the keyboard focus, once it has gained or lost it.
    pub focused: Option<bool>,
    /// How many pixels make up a point, by the bits of the number.
    pub native_pixels_per_point: Option<u32>,
}

/// A viewport that is shown.
pub struct ViewportContext {
    /// The viewport that it was opened from. The root viewport has none.
    pub parent_id: Option<u64>,
    /// The control that shows it, by its handle.
    pub control: u64,
    pub input: ViewportInfo,
    /// The native window around the control, by its handle.
    pub window: Option<u64>,
    /// How the window is set up, where anything was asked for.
    pub window_setup: Option<ViewportBuilder>,
}

/// The engine's objects behind a viewport that is gone. The window, where there is one, is to be
/// freed after the control, whose parent it is.
#[derive(Clone, Copy, Debug, PartialEq, Eq)]
pub struct FreedViewport {
    pub id: u64,
    pub control: u64,
    pub window: Option<u64>,
}

/// A viewport that egui puts out.
pub struct ViewportOutput {
    pub id: u64,
    /// The viewport that it was opened from.
    pub parent: u64,
    /// What is asked of its window.
    pub builder: ViewportBuilder,
}

/// What is to be done about a viewport that egui puts out.
pub enum ViewportStep {
    /// It is to be shown in a window of its own.
    Spawn { parent: u64, setup: ViewportBuilder },
    /// Its window cannot take on what is asked of it: it is to be shown in a new one.
    Respawn { freed: FreedViewport, parent: u64, setup: ViewportBuilder },
    /// It stays where it is.
    Keep,
}

impl FreedViewport {
    /// The objects in the order that they are to be freed in: the control, then its window.
    pub open spec fn free_order(self) -> Seq<u64> {
        match self.window {
            Some(window) => seq![self.control, window],
            None => seq![self.control],
        }
    }

    /// The handles of the objects, in the order that they are to be freed in.
    pub fn handles(&self) -> (handles: Vec<u64>)
        ensures
            handles@ == self.free_order(),
    {
        let mut handles: Vec<u64> = Vec::new();
        handles.push(self.control);
        if let Some(window) = self.window {
            handles.push(window);
        }
        assert(handles@ =~= self.free_order());
        handles
    }
}

impl ViewportInfo {
    /// Nothing is known yet.
    pub open spec fn unknown() -> ViewportInfo {
        ViewportInfo { inner_rect: None, focused: None, native_pixels_per_point: None }
    }

    /// Nothing is known yet.
    pub fn new() -> (info: ViewportInfo)
        ensures
            info == ViewportInfo::unknown(),
    {
        ViewportInfo { inner_rect: None, focused: None, native_pixels_per_point: None }
    }

    /// The same, drawn at one pixel for each point.
    pub open spec fn unscaled(self) -> ViewportInfo {
        ViewportInfo { native_pixels_per_point: Some(ONE_BITS), ..self }
    }
}

impl ViewportContext {
    /// A viewport that has just been put into a control: in a window, as asked for by its
    /// parent, or without one.
    pub open spec fn spawned(
        control: u64,
        windowing: Option<(u64, ViewportBuilder)>,
    ) -> ViewportContext {
        ViewportContext {
            parent_id: match windowing {
                Some((parent, _)) => Some(parent),
                None => None,
            },
            control,
            input: ViewportInfo::unknown(),
            window: None,
            window_setup: match windowing {
                Some((_, setup)) => Some(setup),
                None => None,
            },
        }
    }

    /// What is left to free of the viewport.
    pub open spec fn freed(self, id: u64) -> FreedViewport {
        FreedViewport { id, control: self.control, window: self.window }
    }

    /// What is to be done about the viewport once a setup was merged for its window.
    pub open spec fn step_after(
        self,
        id: u64,
        parent: u64,
        setup: ViewportBuilder,
        recreate: bool,
    ) -> ViewportStep {
        if recreate {
            ViewportStep::Respawn { freed: self.freed(id), parent, setup }
        } else {
            ViewportStep::Keep
        }
    }

    /// Takes the commands of a window. None of them has an effect.
    pub fn apply_commands(&mut self, _commands: Vec<ViewportCommand>)
        ensures
            *final(self) == *old(self),
    {
    }
}

/// When a viewport is taken down, its control is freed, then its window if it has one, each once,
/// and nothing else: no object of another viewport, unless the two share it.
pub proof fn law_only_own_objects_are_freed(context: ViewportContext, id: u64, handle: u64)
    requires
        context.window != Some(context.control),
    ensures
        ({
            let order = context.freed(id).free_order();
            &&& order.contains(handle) <==> handle == context.control || context.window == Some(
                handle,
            )
            &&& order.no_duplicates()
            &&& order[0] == context.control
        }),
{
    let order = context.freed(id).free_order();
    assert(order[0] == context.control);
    if let Some(window) = context.window {
        assert(order[1] == window);
    }
}

/// A pass over the viewports that egui puts out for a frame.
pub struct ViewportPass {
    /// The viewports that were shown when the pass began and were not met since.
    pub pending: HashSet<u64>,
    /// The viewports that were found due, in order.
    pub repainted: Vec<u64>,
    /// When the pass began.
    pub now: u128,
}

impl ViewportPass {
    /// Whether the pass fits the viewports that are shown: those it has still to meet are among
    /// them, and so are those it found due, which it has met.
    pub open spec fn fits(self, shown: Set<u64>) -> bool {
        &&& self.pending@.subset_of(shown)
        &&& forall|i: int|
            0 <= i < self.repainted@.len() ==> shown.contains(#[trigger] self.repainted@[i])
                && !self.pending@.contains(self.repainted@[i])
    }
}

/// A pass goes on fitting the viewports when one is spawned, and when one that it has met and not
/// found due is taken down.
pub proof fn law_pass_goes_on_fitting(pass: ViewportPass, shown: Set<u64>, id: u64)
    requires
        pass.fits(shown),
    ensures
        pass.fits(shown.insert(id)),
        !pass.pending@.contains(id) && !pass.repainted@.contains(id) ==> pass.fits(
            shown.remove(id),
        ),
{
}

/// The viewports once a setup was merged for the window of one of them: that one is gone if its
/// window has to be made anew.
pub open spec fn viewports_after(
    viewports: Map<u64, ViewportContext>,
    id: u64,
    setup: ViewportBuilder,
    recreate: bool,
) -> Map<u64, ViewportContext> {
    if recreate {
        viewports.remove(id)
    } else {
        viewports.insert(id, ViewportContext { window_setup: Some(setup), ..viewports[id] })
    }
}

/// The viewports once a step was carried out, with a new control where it asks for one.
pub open spec fn carried_out(
    viewports: Map<u64, ViewportContext>,
    id: u64,
    step: ViewportStep,
    control: u64,
) -> Map<u64, ViewportContext> {
    match step {
        ViewportStep::Spawn { parent, setup } => viewports.insert(
            id,
            ViewportContext::spawned(control, Some((parent, setup))),
        ),
        ViewportStep::Respawn { freed: _, parent, setup } => viewports.insert(
            id,
            ViewportContext::spawned(control, Some((parent, setup))),
        ),
        ViewportStep::Keep => viewports,
    }
}

/// The viewports once one that egui puts out was met and the step for it carried out, with a new
/// control where it needs one, while those in `pending` were still to be met.
pub open spec fn met(
    viewports: Map<u64, ViewportContext>,
    pending: Set<u64>,
    put: ViewportOutput,
    control: u64,
) -> Map<u64, ViewportContext> {
    if pending.contains(put.id) {
        let outcome = patched(viewports[put.id].window_setup, put.builder);
        carried_out(
            viewports_after(viewports, put.id, outcome.0, outcome.1),
            put.id,
            viewports[put.id].step_after(put.id, put.parent, outcome.0, outcome.1),
            control,
        )
    } else {
        carried_out(
            viewports,
            put.id,
            ViewportStep::Spawn { parent: put.parent, setup: put.builder },
            control,
        )
    }
}

/// The viewports still to be met once all of `puts` were.
pub open spec fn pending_after(pending: Set<u64>, puts: Seq<ViewportOutput>) -> Set<u64>
    decreases puts.len(),
{
    if puts.len() == 0 {
        pending
    } else {
        pending_after(pending, puts.drop_last()).remove(puts.last().id)
    }
}

/// The viewports once all of `puts` were met, each with a new control where it needs one, when
/// those in `pending` were to be met at first.
pub open spec fn all_met(
    viewports: Map<u64, ViewportContext>,
    pending: Set<u64>,
    puts: Seq<ViewportOutput>,
    controls: Seq<u64>,
) -> Map<u64, ViewportContext>
    decreases puts.len(),
{
    if puts.len() == 0 {
        viewports
    } else {
        met(
            all_met(viewports, pending, puts.drop_last(), controls),
            pending_after(pending, puts.drop_last()),
            puts.last(),
            controls[puts.len() - 1],
        )
    }
}

/// Whether egui puts out the viewport.
pub open spec fn is_put_out(puts: Seq<ViewportOutput>, id: u64) -> bool {
    exists|i: int| 0 <= i < puts.len() && (#[trigger] puts[i]).id == id
}

/// A viewport that is met is shown afterwards, with the setup merged for its window, whether or
/// not the window was made anew. If it was not, nothing else about it changes. The other
/// viewports stay as they are.
pub proof fn law_met_viewport_is_shown(
    viewports: Map<u64, ViewportContext>,
    pending: Set<u64>,
    put: ViewportOutput,
    control: u64,
    other: u64,
)
    requires
        pending.subset_of(viewports.dom()),
    ensures
        ({
            let after = met(viewports, pending, put, control);
            let merged = patched(viewports[put.id].window_setup, put.builder);
            &&& after.dom() == viewports.dom().insert(put.id)
            &&& other != put.id && viewports.contains_key(other) ==> after[other]
                == viewports[other]
            &&& if !pending.contains(put.id) {
                after[put.id] == ViewportContext::spawned(
                    control,
                    Some((put.parent, put.builder)),
                )
            } else if merged.1 {
                after[put.id] == ViewportContext::spawned(control, Some((put.parent, merged.0)))
            } else {
                after[put.id] == (ViewportContext {
                    window_setup: Some(merged.0),
                    ..viewports[put.id]
                })
            }
        }),
{
    assert(met(viewports, pending, put, control).dom() =~= viewports.dom().insert(put.id));
}

/// A pass leaves shown exactly the viewports that egui put out: the others, which it never met,
/// are taken down at its end.
pub proof fn law_pass_shows_what_was_put_out(
    viewports: Map<u64, ViewportContext>,
    puts: Seq<ViewportOutput>,
    controls: Seq<u64>,
    id: u64,
)
    ensures
        ({
            let pending = viewports.dom();
            let left = all_met(viewports, pending, puts, controls).remove_keys(
                pending_after(pending, puts),
            );
            left.contains_key(id) <==> is_put_out(puts, id)
        }),
{
    lemma_all_met(viewports, puts, controls, id);
}

proof fn lemma_all_met(
    viewports: Map<u64, ViewportContext>,
    puts: Seq<ViewportOutput>,
    controls: Seq<u64>,
    id: u64,
)
    ensures
        pending_after(viewports.dom(), puts).contains(id) == (viewports.contains_key(id)
            && !is_put_out(puts, id)),
        all_met(viewports, viewports.dom(), puts, controls).contains_key(id) == (
        viewports.contains_key(id) || is_put_out(puts, id)),
    decreases puts.len(),
{
    if puts.len() > 0 {
        let rest = puts.drop_last();
        let put = puts.last();
        lemma_all_met(viewports, rest, controls, id);
        assert(is_put_out(puts, id) == (is_put_out(rest, id) || put.id == id)) by {
            if is_put_out(rest, id) {
                let i = choose|i: int| 0 <= i < rest.len() && (#[trigger] rest[i]).id == id;
                assert(puts[i].id == id);
            }
            if put.id == id {
                assert(puts[puts.len() - 1].id == id);
            }
            if is_put_out(puts, id) && put.id != id {
                let i = choose|i: int| 0 <= i < puts.len() && (#[trigger] puts[i]).id == id;
                assert(rest[i].id == id);
            }
        }
    }
}

/// The viewports that are shown, in any order.
pub(crate) fn shown_ids(viewports: &HashMap<u64, ViewportContext>) -> (ids: HashSet<u64>)
    ensures
        ids@ == viewports@.dom(),
{
    let mut ids: HashSet<u64> = HashSet::new();
    for id in iter: viewports.keys()
        invariant
            forall|id: u64| #[trigger] ids@.contains(id) ==> viewports@.contains_key(id),
            forall|i: int| 0 <= i < iter.index() ==> ids@.contains(*#[trigger] iter.seq()[i]),
    {
        assert(iter.seq().unref()[iter.index()] == *id);
        ids.insert(*id);
    }
    assert(ids@ =~= viewports@.dom());
    ids
}

/// The members of a set, in any order.
pub(crate) fn members(set: &HashSet<u64>) -> (ids: Vec<u64>)
    ensures
        ids@.no_duplicates(),
        ids@.to_set() == set@,
{
    let mut ids: Vec<u64> = Vec::new();
    for id in iter: set.iter()
        invariant
            ids@.no_duplicates(),
            forall|id: u64| #[trigger] ids@.contains(id) ==> set@.contains(id),
            forall|i: int| 0 <= i < iter.index() ==> ids@.contains(*#[trigger] iter.seq()[i]),
            ids@.len() == iter.index(),
            forall|i: int| 0 <= i < ids@.len() ==> #[trigger] ids@[i] == *iter.seq()[i],
    {
        let ghost before = ids@;
        assert(iter.seq().unref()[iter.index()] == *id);
        ids.push(*id);
        assert(ids@[before.len() as int] == *id);
        assert forall|other: u64| before.contains(other) implies #[trigger] ids@.contains(
            other,
        ) by {
            assert(ids@[before.index_of(other)] == other);
        }
    }
    assert(ids@.to_set() =~= set@);
    ids
}

/// A viewport that is spawned is shown by the control given. It has the parent and the setup that
/// were asked for, or neither, and nothing is known about it yet.
pub proof fn law_spawned_viewport_is_as_asked(
    control: u64,
    windowing: Option<(u64, ViewportBuilder)>,
)
    ensures
        ({
            let context = ViewportContext::spawned(control, windowing);
            &&& context.control == control
            &&& context.window is None
            &&& context.input.inner_rect is None
            &&& context.input.focused is None
            &&& context.input.native_pixels_per_point is None
            &&& windowing matches Some((parent, setup)) ==> context.parent_id == Some(parent)
                && context.window_setup == Some(setup)
            &&& windowing is None ==> context.parent_id is None && context.window_setup is None
        }),
{
}

/// A viewport whose window has to be made anew is taken down, its objects are given up, and it is
/// to be shown again with the same parent and the merged setup. Any other stays as it is but for
/// the setup. No other viewport changes.
pub proof fn law_merged_setup_is_settled(
    viewports: Map<u64, ViewportContext>,
    id: u64,
    parent: u64,
    setup: ViewportBuilder,
    recreate: bool,
    other: u64,
)
    requires
        viewports.contains_key(id),
    ensures
        ({
            let before = viewports[id];
            let step = before.step_after(id, parent, setup, recreate);
            let after = viewports_after(viewports, id, setup, recreate);
            &&& recreate ==> !after.contains_key(id)
            &&& recreate ==> {
                &&& step matches ViewportStep::Respawn { freed, parent: to, setup: with }
                &&& freed.id == id
                &&& freed.control == before.control
                &&& freed.window == before.window
                &&& to == parent
                &&& with == setup
            }
            &&& !recreate ==> step is Keep && after.contains_key(id)
            &&& !recreate ==> {
                &&& after[id].parent_id == before.parent_id
                &&& after[id].control == before.control
                &&& after[id].input == before.input
                &&& after[id].window == before.window
                &&& after[id].window_setup == Some(setup)
            }
            &&& other != id ==> after.contains_key(other) == viewports.contains_key(other)
            &&& other != id && viewports.contains_key(other) ==> after[other] == viewports[other]
        }),
{
}

/// Carrying a step out shows the viewport in the new control exactly if the step asks for one, and
/// changes no other viewport.
pub proof fn law_step_is_carried_out(
    viewports: Map<u64, ViewportContext>,
    id: u64,
    step: ViewportStep,
    control: u64,
    other: u64,
)
    ensures
        ({
            let after = carried_out(viewports, id, step, control);
            &&& step is Keep ==> after == viewports
            &&& !(step is Keep) ==> after.contains_key(id) && after[id].control == control
            &&& step matches ViewportStep::Spawn { parent, setup } ==> after[id].parent_id == Some(
                parent,
            ) && after[id].window_setup == Some(setup)
            &&& step matches ViewportStep::Respawn { freed: _, parent, setup }
                ==> after[id].parent_id == Some(parent) && after[id].window_setup == Some(setup)
            &&& other != id ==> after.contains_key(other) == viewports.contains_key(other)
            &&& other != id && viewports.contains_key(other) ==> after[other] == viewports[other]
        }),
{
}

/// A pass fits exactly if every viewport it has still to meet is shown, and every one it found due
/// is shown and met.
pub proof fn law_fitting_pass_knows_what_is_shown(pass: ViewportPass, shown: Set<u64>)
    ensures
        pass.fits(shown) <==> (forall|id: u64| #[trigger]
            pass.pending@.contains(id) ==> shown.contains(id)) && (forall|id: u64| #[trigger]
            pass.repainted@.contains(id) ==> shown.contains(id) && !pass.pending@.contains(id)),
{
    if pass.fits(shown) {
        assert forall|id: u64| #[trigger] pass.repainted@.contains(id) implies shown.contains(id)
            && !pass.pending@.contains(id) by {
            let i = pass.repainted@.index_of(id);
            assert(pass.repainted@[i] == id);
        }
    } else if forall|id: u64| #[trigger]
        pass.repainted@.contains(id) ==> shown.contains(id) && !pass.pending@.contains(id) {
        assert forall|i: int| 0 <= i < pass.repainted@.len() implies shown.contains(
            #[trigger] pass.repainted@[i],
        ) && !pass.pending@.contains(pass.repainted@[i]) by {
            assert(pass.repainted@.contains(pass.repainted@[i]));
        }
    }
}

} // verus!
