//! The control that shows one viewport and passes on what happens to it.

use crate::bridge::EguiBridge;
use crate::life::{happens, Act};
use crate::shared::{LatestFocus, SharedContext};
use crate::viewport::{Rect, ViewportContext, ViewportInfo, ROOT};
use std::collections::HashMap;
use vstd::prelude::*;

verus! {

broadcast use vstd::std_specs::hash::group_hash_axioms;

/// The control that shows one viewport.
#[derive(Clone, Copy, Debug, PartialEq, Eq)]
pub struct EguiViewportIoBridge {
    /// The viewport that it shows.
    pub self_id: u64,
    /// Its own handle.
    pub control: u64,
}

/// What a control is told by the engine.
#[derive(Clone, Copy, Debug, PartialEq, Eq)]
pub enum ControlNotification {
    FocusEnter,
    FocusExit,
    Resized,
    /// Anything else.
    Other,
}

/// Which kinds of input an event is.
#[derive(Clone, Copy, Debug, PartialEq, Eq)]
pub struct InputKinds {
    pub mouse_button: bool,
    pub mouse_motion: bool,
    pub key: bool,
}

/// The viewports once a control has made something known about its own. A control whose viewport
/// is gone, or is shown by another control by now, makes nothing known.
pub open spec fn informed(
    viewports: Map<u64, ViewportContext>,
    id: u64,
    control: u64,
    info: ViewportInfo,
) -> Map<u64, ViewportContext> {
    if viewports.contains_key(id) && viewports[id].control == control {
        viewports.insert(id, ViewportContext { input: info, ..viewports[id] })
    } else {
        viewports
    }
}

impl EguiViewportIoBridge {
    /// A control that shows no viewport of its own yet.
    pub fn new() -> (bridge: EguiViewportIoBridge)
        ensures
            bridge.self_id == ROOT,
            bridge.control == 0,
    {
        EguiViewportIoBridge { self_id: ROOT, control: 0 }
    }

    /// Ties the control to its viewport.
    pub fn initiate(&mut self, id: u64, control: u64)
        ensures
            final(self).self_id == id,
            final(self).control == control,
    {
        self.self_id = id;
        self.control = control;
    }

    /// What is known about the control's viewport.
    pub open spec fn known(self, viewports: Map<u64, ViewportContext>) -> ViewportInfo {
        viewports[self.self_id].input
    }

    fn inform(
        &self,
        viewports: &mut HashMap<u64, ViewportContext>,
        focused: Option<bool>,
        inner_rect: Option<Rect>,
    )
        ensures
            final(viewports)@ == informed(
                old(viewports)@,
                self.self_id,
                self.control,
                ViewportInfo {
                    focused: if focused is Some {
                        focused
                    } else {
                        self.known(old(viewports)@).focused
                    },
                    inner_rect: if inner_rect is Some {
                        inner_rect
                    } else {
                        self.known(old(viewports)@).inner_rect
                    },
                    ..self.known(old(viewports)@)
                },
            ),
    {
        if let Some(mut context) = viewports.remove(&self.self_id) {
            if context.control == self.control {
                if focused.is_some() {
                    context.input.focused = focused;
                }
                if inner_rect.is_some() {
                    context.input.inner_rect = inner_rect;
                }
            }
            viewports.insert(self.self_id, context);
        }
        assert(viewports@ =~= informed(
            old(viewports)@,
            self.self_id,
            self.control,
            ViewportInfo {
                focused: if focused is Some {
                    focused
                } else {
                    self.known(old(viewports)@).focused
                },
                inner_rect: if inner_rect is Some {
                    inner_rect
                } else {
                    self.known(old(viewports)@).inner_rect
                },
                ..self.known(old(viewports)@)
            },
        ));
    }

    /// The bridge once the control has gained the focus, or lost it.
    pub open spec fn refocused(
        self,
        before: EguiBridge,
        after: EguiBridge,
        focus: LatestFocus,
        focused: bool,
    ) -> bool {
        &&& after.viewports@ == informed(
            before.viewports@,
            self.self_id,
            self.control,
            ViewportInfo { focused: Some(focused), ..self.known(before.viewports@) },
        )
        &&& after == (EguiBridge {
            viewports: after.viewports,
            share: SharedContext { latest_focus: focus, ..before.share },
            ..before
        })
    }

    /// The bridge once the control was told something.
    pub open spec fn told(
        self,
        before: EguiBridge,
        what: ControlNotification,
        after: EguiBridge,
    ) -> bool {
        match what {
            ControlNotification::FocusEnter => self.refocused(
                before,
                after,
                before.share.latest_focus.entered(self.self_id),
                true,
            ),
            ControlNotification::FocusExit => self.refocused(
                before,
                after,
                before.share.latest_focus.left(self.self_id),
                false,
            ),
            _ => after == before,
        }
    }

    /// Takes note of what the control is told, and tells whether its viewport is to be painted
    /// again.
    pub fn on_notification(&self, bridge: &mut EguiBridge, what: ControlNotification) -> (repaint:
        bool)
        ensures
            repaint == (what is Resized),
            self.told(*old(bridge), what, *final(bridge)),
            happens(*old(bridge), Act::Other, *final(bridge)),
    {
        match what {
            ControlNotification::FocusEnter => {
                bridge.share.latest_focus = LatestFocus { viewport: self.self_id, focused: true };
                self.inform(&mut bridge.viewports, Some(true), None);
                false
            },
            ControlNotification::FocusExit => {
                if bridge.share.latest_focus.viewport == self.self_id {
                    bridge.share.latest_focus =
                    LatestFocus { viewport: self.self_id, focused: false };
                }
                self.inform(&mut bridge.viewports, Some(false), None);
                false
            },
            ControlNotification::Resized => true,
            ControlNotification::Other => false,
        }
    }

    /// Whether an input event is taken, and the viewport painted again for it: mouse buttons,
    /// mouse motions and keys are.
    pub fn gui_input(&self, kinds: InputKinds) -> (accepted: bool)
        ensures
            accepted == (kinds.mouse_button || kinds.mouse_motion || kinds.key),
    {
        kinds.mouse_button || kinds.mouse_motion || kinds.key
    }

    /// Makes known where the control lies, and gives the viewport to be painted again.
    pub fn request_repaint(&self, bridge: &mut EguiBridge, rect: Rect) -> (id: u64)
        ensures
            id == self.self_id,
            final(bridge).viewports@ == informed(
                old(bridge).viewports@,
                self.self_id,
                self.control,
                ViewportInfo { inner_rect: Some(rect), ..self.known(old(bridge).viewports@) },
            ),
            *final(bridge) == (EguiBridge { viewports: final(bridge).viewports, ..*old(bridge) }),
            happens(*old(bridge), Act::Other, *final(bridge)),
    {
        self.inform(&mut bridge.viewports, None, Some(rect));
        self.self_id
    }
}

/// A control that is still told things after its viewport was put into another control changes
/// nothing of what is known about it.
pub proof fn law_replaced_control_is_ignored(
    viewports: Map<u64, ViewportContext>,
    id: u64,
    control: u64,
    replaced: u64,
    info: ViewportInfo,
)
    requires
        viewports.contains_key(id),
        viewports[id].control == control,
        replaced != control,
    ensures
        informed(viewports, id, replaced, info) == viewports,
{
}

/// What a control makes known is known about its own viewport and no other, and changes neither
/// which viewports are shown nor by what.
pub proof fn law_informing_is_local(
    viewports: Map<u64, ViewportContext>,
    id: u64,
    control: u64,
    info: ViewportInfo,
    other: u64,
)
    ensures
        informed(viewports, id, control, info).dom() == viewports.dom(),
        other != id && viewports.contains_key(other) ==> informed(
            viewports,
            id,
            control,
            info,
        )[other] == viewports[other],
        viewports.contains_key(id) && viewports[id].control == control ==> informed(
            viewports,
            id,
            control,
            info,
        )[id] == (ViewportContext { input: info, ..viewports[id] }),
{
    assert(informed(viewports, id, control, info).dom() =~= viewports.dom());
}

/// A control is told something.
pub struct Note {
    pub io: EguiViewportIoBridge,
    pub what: ControlNotification,
}

impl Note {
    /// Whether it is about the focus.
    pub open spec fn is_focus(self) -> bool {
        self.what is FocusEnter || self.what is FocusExit
    }
}

/// Whether controls are told `notes` one after another, from each of `states` to the next.
pub open spec fn are_told(states: Seq<EguiBridge>, notes: Seq<Note>) -> bool {
    &&& states.len() == notes.len() + 1
    &&& forall|i: int|
        0 <= i < notes.len() ==> (#[trigger] notes[i]).io.told(
            states[i],
            notes[i].what,
            states[i + 1],
        )
}

/// Whether the viewport loses the focus in one of `notes` that comes after the one at `k`.
pub open spec fn is_left_after(notes: Seq<Note>, k: int, id: u64) -> bool {
    exists|j: int|
        k < j < notes.len() && (#[trigger] notes[j]).io.self_id == id && notes[j].what is FocusExit
}

/// However many controls gain the focus and lose it, and in whatever order they are told: the
/// latest focus is on the viewport that gained it last, and that viewport has it unless it has
/// lost it since.
pub proof fn law_last_entered_has_focus(states: Seq<EguiBridge>, notes: Seq<Note>, k: int)
    requires
        are_told(states, notes),
        0 <= k < notes.len(),
        notes[k].what is FocusEnter,
        forall|j: int| k < j < notes.len() ==> !((#[trigger] notes[j]).what is FocusEnter),
    ensures
        states.last().share.latest_focus == (LatestFocus {
            viewport: notes[k].io.self_id,
            focused: !is_left_after(notes, k, notes[k].io.self_id),
        }),
    decreases notes.len(),
{
    let id = notes[k].io.self_id;
    let last = notes.len() - 1;
    assert(notes[last].io.told(states[last], notes[last].what, states[last + 1]));
    if k < last {
        lemma_told_earlier(states, notes);
        law_last_entered_has_focus(states.drop_last(), notes.drop_last(), k);
        let earlier = notes.drop_last();
        if is_left_after(earlier, k, id) {
            let j = choose|j: int|
                k < j < earlier.len() && (#[trigger] earlier[j]).io.self_id == id
                    && earlier[j].what is FocusExit;
            assert(notes[j] == earlier[j]);
        }
        if is_left_after(notes, k, id) && !(notes[last].io.self_id == id
            && notes[last].what is FocusExit) {
            let j = choose|j: int|
                k < j < notes.len() && (#[trigger] notes[j]).io.self_id == id
                    && notes[j].what is FocusExit;
            assert(earlier[j] == notes[j]);
        }
        assert(!(notes[last].what is FocusEnter));
    }
}

/// What is known about the focus of a viewport is what the control that shows it was told last,
/// whatever other controls are told.
pub proof fn law_last_note_is_known(states: Seq<EguiBridge>, notes: Seq<Note>, k: int)
    requires
        are_told(states, notes),
        0 <= k < notes.len(),
        notes[k].is_focus(),
        forall|j: int|
            k < j < notes.len() ==> !(#[trigger] notes[j]).is_focus() || notes[j].io != notes[k].io,
        states[0].viewports@.contains_key(notes[k].io.self_id),
        states[0].viewports@[notes[k].io.self_id].control == notes[k].io.control,
    ensures
        notes[k].io.known(states.last().viewports@).focused == Some(notes[k].what is FocusEnter),
    decreases notes.len(),
{
    let io = notes[k].io;
    let last = notes.len() - 1;
    lemma_told_earlier(states, notes);
    lemma_still_shown(states.drop_last(), notes.drop_last(), io);
    assert(notes[last].io.told(states[last], notes[last].what, states[last + 1]));
    if k < last {
        law_last_note_is_known(states.drop_last(), notes.drop_last(), k);
        assert(!notes[last].is_focus() || notes[last].io != io);
    }
}

proof fn lemma_told_earlier(states: Seq<EguiBridge>, notes: Seq<Note>)
    requires
        are_told(states, notes),
        notes.len() > 0,
    ensures
        are_told(states.drop_last(), notes.drop_last()),
        states.drop_last().last() == states[notes.len() - 1],
{
    let earlier = notes.drop_last();
    assert forall|i: int| 0 <= i < earlier.len() implies (#[trigger] earlier[i]).io.told(
        states.drop_last()[i],
        earlier[i].what,
        states.drop_last()[i + 1],
    ) by {
        assert(earlier[i] == notes[i]);
    }
}

/// What controls are told does not change which control shows a viewport.
proof fn lemma_still_shown(states: Seq<EguiBridge>, notes: Seq<Note>, io: EguiViewportIoBridge)
    requires
        are_told(states, notes),
        states[0].viewports@.contains_key(io.self_id),
        states[0].viewports@[io.self_id].control == io.control,
    ensures
        states.last().viewports@.contains_key(io.self_id),
        states.last().viewports@[io.self_id].control == io.control,
    decreases notes.len(),
{
    if notes.len() > 0 {
        let last = notes.len() - 1;
        lemma_told_earlier(states, notes);
        lemma_still_shown(states.drop_last(), notes.drop_last(), io);
        assert(notes[last].io.told(states[last], notes[last].what, states[last + 1]));
    }
}

/// What a control is told about the focus is known about its own viewport, and nothing else that
/// is known about that one changes. A control that no longer shows its viewport changes nothing of
/// what is known. Nothing else about the bridge changes but the latest focus.
pub proof fn law_told_changes_only_the_focus(
    io: EguiViewportIoBridge,
    before: EguiBridge,
    what: ControlNotification,
    after: EguiBridge,
    id: u64,
)
    requires
        io.told(before, what, after),
    ensures
        after.viewports@.dom() == before.viewports@.dom(),
        before.viewports@.contains_key(id) ==> {
            let now = after.viewports@[id];
            let earlier = before.viewports@[id];
            &&& now.parent_id == earlier.parent_id
            &&& now.control == earlier.control
            &&& now.window == earlier.window
            &&& now.window_setup == earlier.window_setup
            &&& now.input.inner_rect == earlier.input.inner_rect
            &&& now.input.native_pixels_per_point == earlier.input.native_pixels_per_point
            &&& now.input.focused == (if id == io.self_id && earlier.control == io.control && (
            what is FocusEnter || what is FocusExit) {
                Some(what is FocusEnter)
            } else {
                earlier.input.focused
            })
        },
        what is FocusEnter ==> after.share.latest_focus == (LatestFocus {
            viewport: io.self_id,
            focused: true,
        }),
        what is FocusExit ==> after.share.latest_focus.viewport
            == before.share.latest_focus.viewport,
        what is FocusExit ==> (after.share.latest_focus.focused
            <==> before.share.latest_focus.focused && before.share.latest_focus.viewport
            != io.self_id),
        what is Resized || what is Other ==> after == before,
        after.started == before.started,
        after.textures == before.textures,
        after.canvas_items == before.canvas_items,
        after.share.ctx == before.share.ctx,
        after.share.screen == before.share.screen,
        after.share.events == before.share.events,
        after.share.repaint_schedule == before.share.repaint_schedule,
        after.cached_screen_rect == before.cached_screen_rect,
        after.debug_show_vertex_lines == before.debug_show_vertex_lines,
        after.crash == before.crash,
        io.known(before.viewports@) == before.viewports@[io.self_id].input,
{
    assert(after.viewports@.dom() =~= before.viewports@.dom());
}

} // verus!
