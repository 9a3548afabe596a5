//! What all viewports have in common.

use crate::outside::{new_queue, pop_queue, queued};
use crate::schedule::RepaintSchedule;
use crate::viewport::ROOT;
use crossbeam_queue::SegQueue;
use egui::Context;
use vstd::prelude::*;

verus! {

/// The viewport that gained the keyboard focus last, and whether it has it still.
#[derive(Clone, Copy, Debug, PartialEq, Eq, Structural)]
pub struct LatestFocus {
    pub viewport: u64,
    pub focused: bool,
}

/// Where the render target lies on the desktop.
#[derive(Clone, Copy, Debug, PartialEq, Eq)]
pub struct ScreenBuffer {
    pub global_offset: (u32, u32),
}

/// What all viewports have in common.
pub struct SharedContext {
    pub ctx: Context,
    pub screen: ScreenBuffer,
    pub latest_focus: LatestFocus,
    /// Input events that egui has not seen yet, each by a number that it is known by.
    pub events: SegQueue<u64>,
    pub repaint_schedule: RepaintSchedule,
}

impl LatestFocus {
    /// The focus before any viewport has gained it.
    pub open spec fn initial() -> LatestFocus {
        LatestFocus { viewport: ROOT, focused: false }
    }

    /// The focus once a viewport has gained it.
    pub open spec fn entered(self, id: u64) -> LatestFocus {
        LatestFocus { viewport: id, focused: true }
    }

    /// The focus once a viewport has lost it. A viewport that gained it since keeps it.
    pub open spec fn left(self, id: u64) -> LatestFocus {
        if self.viewport == id {
            LatestFocus { viewport: id, focused: false }
        } else {
            self
        }
    }

    /// The focus among the viewports that are shown: on the root viewport, without the keyboard,
    /// where the one that had it is gone.
    pub open spec fn among(self, shown: Set<u64>) -> LatestFocus {
        if shown.contains(self.viewport) {
            self
        } else {
            LatestFocus::initial()
        }
    }
}

/// When the focus moves from one viewport to another, it ends up at the other, whichever of the
/// two is told first.
pub proof fn law_focus_moves(focus: LatestFocus, from: u64, to: u64)
    requires
        from != to,
    ensures
        focus.left(from).entered(to) == (LatestFocus { viewport: to, focused: true }),
        focus.entered(to).left(from) == (LatestFocus { viewport: to, focused: true }),
{
}

/// A viewport that gains the focus and loses it again is the latest to have had it.
pub proof fn law_focus_lost(focus: LatestFocus, id: u64)
    ensures
        focus.entered(id).left(id) == (LatestFocus { viewport: id, focused: false }),
{
}

/// Gaining the focus takes it from whichever viewport had it. Losing it leaves it where it was:
/// the keyboard goes only if the viewport that loses it was the latest to gain it.
pub proof fn law_focus_is_gained_and_lost(focus: LatestFocus, id: u64)
    ensures
        focus.entered(id).viewport == id,
        focus.entered(id).focused,
        focus.left(id).viewport == focus.viewport,
        focus.left(id).focused <==> focus.focused && focus.viewport != id,
        LatestFocus::initial().viewport == 0xffff_ffff_ffff_ffff,
        !LatestFocus::initial().focused,
{
}

/// The focus is left as it is whenever its viewport is shown, whichever viewport that is. It
/// falls back to the root viewport, without the keyboard, only where its viewport is gone.
pub proof fn law_focus_on_shown_viewport_stays(focus: LatestFocus, shown: Set<u64>)
    ensures
        shown.contains(focus.viewport) ==> focus.among(shown) == focus,
        !shown.contains(focus.viewport) ==> focus.among(shown).viewport == ROOT && !focus.among(
            shown,
        ).focused,
{
}

/// A viewport that gains the focus has it at the start of the next frame as long as it is shown,
/// whatever happened before.
pub proof fn law_focus_gained_is_told(focus: LatestFocus, id: u64, shown: Set<u64>)
    requires
        shown.contains(id),
    ensures
        focus.entered(id).among(shown) == (LatestFocus { viewport: id, focused: true }),
{
}

/// As long as the root viewport is shown, the focus is on a viewport that is shown, and it has
/// the keyboard only if that viewport gained it.
pub proof fn law_focus_is_valid(focus: LatestFocus, shown: Set<u64>)
    requires
        shown.contains(ROOT),
    ensures
        shown.contains(focus.among(shown).viewport),
        focus.among(shown).focused ==> focus.among(shown) == focus,
        focus.among(shown).among(shown) == focus.among(shown),
{
}

impl SharedContext {
    /// A context for viewports of which none is shown yet.
    pub fn new(ctx: Context) -> (share: SharedContext)
        ensures
            share.ctx == ctx,
            share.screen.global_offset == (0u32, 0u32),
            share.latest_focus == LatestFocus::initial(),
            share.latest_focus.viewport == ROOT,
            !share.latest_focus.focused,
            queued(share.events) == Seq::<u64>::empty(),
            share.repaint_schedule@ == Map::<u64, u128>::empty(),
    {
        SharedContext {
            ctx,
            screen: ScreenBuffer { global_offset: (0, 0) },
            latest_focus: LatestFocus { viewport: ROOT, focused: false },
            events: new_queue(),
            repaint_schedule: RepaintSchedule::new(),
        }
    }
}

/// Takes all events off a queue, the oldest first.
pub fn drain_events(events: &mut SegQueue<u64>) -> (drained: Vec<u64>)
    ensures
        drained@ == queued(*old(events)),
        queued(*final(events)) == Seq::<u64>::empty(),
{
    let mut drained: Vec<u64> = Vec::new();
    loop
        invariant
            drained@ + queued(*events) == queued(*old(events)),
        ensures
            drained@ == queued(*old(events)),
            queued(*events) == Seq::<u64>::empty(),
        decreases queued(*events).len(),
    {
        let ghost left = queued(*events);
        match pop_queue(events) {
            Some(event) => {
                let ghost before = drained@;
                drained.push(event);
                assert(drained@ + queued(*events) =~= before + left);
            },
            None => {
                assert(queued(*events) =~= Seq::<u64>::empty());
                assert(drained@ + queued(*events) =~= drained@);
                break;
            },
        }
    }
    drained
}

} // verus!
