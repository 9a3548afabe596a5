//! What the bridge takes from egui and crossbeam, with the contracts it relies on.
//!
//! Nothing in this file is proved: each contract states what the named function of the other
//! crate does.

use crate::texture::Rgba;
use crossbeam_queue::SegQueue;
use egui::{Color32, Context, ViewportBuilder, ViewportCommand};
use vstd::arithmetic::power::pow;
use vstd::prelude::*;

verus! {

/// A handle to an egui context. The value is the handle, not what the context holds.
#[verifier::external_type_specification]
#[verifier::external_body]
pub struct ExContext(egui::Context);

/// How a native window is to be set up, as egui describes it.
#[verifier::external_type_specification]
#[verifier::external_body]
pub struct ExViewportBuilder(egui::ViewportBuilder);

/// A change that egui asks of a native window.
#[verifier::external_type_specification]
#[verifier::external_body]
pub struct ExViewportCommand(egui::ViewportCommand);

/// An unbounded first-in first-out queue.
#[verifier::external_type_specification]
#[verifier::external_body]
#[verifier::reject_recursive_types(T)]
pub struct ExSegQueue<T>(crossbeam_queue::SegQueue<T>);

/// `egui::Context::clone`: the clone is a second handle to the same context.
pub assume_specification[ <Context as Clone>::clone ](context: &Context) -> (handle: Context)
    ensures
        handle == *context,
;

/// The items that a queue holds, the one to leave first in front.
pub uninterp spec fn queued(queue: SegQueue<u64>) -> Seq<u64>;

/// `SegQueue::new`: the queue starts empty.
#[verifier::external_body]
pub(crate) fn new_queue() -> (queue: SegQueue<u64>)
    ensures
        queued(queue) == Seq::<u64>::empty(),
{
    SegQueue::new()
}

/// `SegQueue::pop`: takes the item at the front, or gives `None` when there is none. The queue is
/// borrowed exclusively, so nobody adds to it meanwhile.
#[verifier::external_body]
pub(crate) fn pop_queue(queue: &mut SegQueue<u64>) -> (item: Option<u64>)
    ensures
        queued(*old(queue)).len() == 0 ==> item is None && queued(*final(queue)) == queued(
            *old(queue),
        ),
        queued(*old(queue)).len() > 0 ==> item == Some(queued(*old(queue))[0]) && queued(
            *final(queue),
        ) == queued(*old(queue)).skip(1),
{
    queue.pop()
}

/// What `egui::ViewportBuilder::patch` makes of a window setup and an update to it: the merged
/// setup, and whether the window must be made anew for it. No setup stands for
/// `ViewportBuilder::default()`.
pub uninterp spec fn patched(
    setup: Option<ViewportBuilder>,
    update: ViewportBuilder,
) -> (ViewportBuilder, bool);

/// `egui::ViewportBuilder::patch`: merges the update into the setup, and says whether the window
/// must be made anew. The list of window commands is left open: whether it holds an icon command
/// depends on where in memory the two icons lie.
#[verifier::external_body]
pub(crate) fn patch_setup(setup: Option<ViewportBuilder>, update: ViewportBuilder) -> (outcome: (
    ViewportBuilder,
    Vec<ViewportCommand>,
    bool,
))
    ensures
        (outcome.0, outcome.2) == patched(setup, update),
{
    let mut merged = setup.unwrap_or_default();
    let (commands, recreate) = merged.patch(update);
    (merged, commands, recreate)
}

/// How much light a channel stands for that is so many hundredths of a step: its fifth power,
/// times a constant that makes it whole. Up to 10.31 steps the light grows with the channel, and
/// with a power of 2.4 from there on.
pub open spec fn light(hundredths: int) -> int {
    if hundredths <= 1031 {
        pow(hundredths, 5) * pow(269025, 12)
    } else {
        pow(10 * hundredths + 14025, 12) * pow(329460, 5)
    }
}

/// Whether a channel is the step nearest to the light of another one divided by an alpha, or the
/// last step where there is more light than that. A hundredth of a step is left open on either
/// side of the half.
pub open spec fn divided(multiplied: u8, alpha: u8, straight: u8) -> bool {
    let whole = light(100 * multiplied) * pow(255, 5);
    let part = pow(alpha as int, 5);
    &&& straight > 0 ==> light(100 * straight - 51) * part <= whole
    &&& straight < 255 ==> whole <= light(100 * straight + 51) * part
}

/// What holds of a colour channel before and after an alpha is divided out of it.
pub open spec fn channel_straight(multiplied: u8, alpha: u8, straight: u8) -> bool {
    &&& multiplied <= straight
    &&& multiplied == 0 ==> straight == 0
    &&& 0 < alpha < 255 ==> divided(multiplied, alpha, straight)
    &&& alpha == 0 || alpha == 255 ==> straight == multiplied
}

/// Whether a colour is another one, which is multiplied by its alpha, with the alpha divided out.
pub open spec fn is_straight(multiplied: Rgba, straight: Rgba) -> bool {
    &&& straight.a == multiplied.a
    &&& channel_straight(multiplied.r, multiplied.a, straight.r)
    &&& channel_straight(multiplied.g, multiplied.a, straight.g)
    &&& channel_straight(multiplied.b, multiplied.a, straight.b)
}

/// `egui::Color32::to_srgba_unmultiplied`: alpha is kept, opaque and wholly transparent colours
/// are kept, and each channel of a translucent one is the step nearest to its light divided by the
/// alpha; none gets darker, and black stays black. Within a hundredth of a step of the middle
/// between two steps it is left open which of them it is: the light is worked out with a
/// floating-point power, whose last digits differ between machines.
#[verifier::external_body]
pub(crate) fn unmultiply(color: Rgba) -> (straight: Rgba)
    ensures
        is_straight(color, straight),
{
    let multiplied = Color32::from_rgba_premultiplied(color.r, color.g, color.b, color.a);
    let [r, g, b, a] = multiplied.to_srgba_unmultiplied();
    Rgba { r, g, b, a }
}

} // verus!
