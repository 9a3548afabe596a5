//! What holds of a bridge over its whole life, whatever happens to it and in which order.

use crate::bridge::{EguiBridge, FrameStep};
use crate::canvas::{freed_items, kept_items, missing_items};
use crate::control::EguiViewportIoBridge;
use crate::outside::queued;
use crate::viewport::{ViewportContext, ViewportStep};
use vstd::prelude::*;

verus! {

/// Something that happens to a bridge.
pub enum Act {
    /// A frame is begun, or it is found that there is nothing to do.
    Process { step: FrameStep },
    /// egui is told about a frame, and gets the events.
    Input { events: Seq<u64> },
    /// An input event arrives.
    Push { event: u64 },
    /// A viewport is shown in a control.
    Spawn { io: EguiViewportIoBridge },
    /// Viewports are taken down.
    Remove { ids: Set<u64> },
    /// As many canvas items are kept as there are primitives.
    Fit { primitives: nat, fresh: Seq<u64>, freed: Seq<u64> },
    /// The bridge is taken down, with the canvas items it gives up, where it was ever started.
    Exit { freed: Option<Seq<u64>> },
    /// Anything else.
    Other,
}

impl Act {
    /// What has happened once a viewport was met: it is taken down where it is to be shown in a
    /// new window.
    pub open spec fn after(id: u64, step: ViewportStep) -> Act {
        if step is Respawn {
            Act::Remove { ids: set![id] }
        } else {
            Act::Other
        }
    }

    /// The bridge is taken down, with the canvas items that it gives up.
    pub open spec fn exit(freed: Option<Vec<u64>>) -> Act {
        Act::Exit {
            freed: match freed {
                Some(items) => Some(items@),
                None => None,
            },
        }
    }
}

/// The control that shows each viewport.
pub open spec fn controls(viewports: Map<u64, ViewportContext>) -> Map<u64, u64> {
    viewports.map_values(|context: ViewportContext| context.control)
}

/// Whether a bridge is as it was before something happened to it, but for that.
pub open spec fn happens(before: EguiBridge, act: Act, after: EguiBridge) -> bool {
    &&& after.share.ctx == before.share.ctx
    &&& match act {
        Act::Process { step } => {
            &&& after.started
            &&& step is SpawnRoot <==> !before.started
        },
        Act::Exit { freed } => {
            &&& after.started == before.started
            &&& freed is Some <==> before.started
        },
        _ => after.started == before.started,
    }
    &&& match act {
        Act::Input { events } => {
            &&& events =~= queued(before.share.events)
            &&& queued(after.share.events) =~= Seq::<u64>::empty()
        },
        Act::Push { event } => queued(after.share.events) =~= queued(before.share.events).push(
            event,
        ),
        _ => queued(after.share.events) =~= queued(before.share.events),
    }
    &&& match act {
        Act::Spawn { io } => controls(after.viewports@) =~= controls(before.viewports@).insert(
            io.self_id,
            io.control,
        ),
        Act::Remove { ids } => controls(after.viewports@) =~= controls(
            before.viewports@,
        ).remove_keys(ids),
        _ => controls(after.viewports@) =~= controls(before.viewports@),
    }
    &&& match act {
        Act::Fit { primitives, fresh, freed } => {
            &&& fresh.len() == missing_items(before.canvas_items@, primitives)
            &&& freed =~= freed_items(before.canvas_items@, fresh, primitives)
            &&& after.canvas_items@ =~= kept_items(before.canvas_items@, fresh, primitives)
        },
        Act::Exit { freed: Some(items) } => {
            &&& items =~= before.canvas_items@
            &&& after.canvas_items@ =~= Seq::<u64>::empty()
        },
        _ => after.canvas_items@ =~= before.canvas_items@,
    }
}

/// Whether `acts` happen one after another, from each of `states` to the next.
pub open spec fn is_life(states: Seq<EguiBridge>, acts: Seq<Act>) -> bool {
    &&& states.len() == acts.len() + 1
    &&& forall|i: int|
        0 <= i < acts.len() ==> happens(states[i], #[trigger] acts[i], states[i + 1])
}

proof fn lemma_earlier_life(states: Seq<EguiBridge>, acts: Seq<Act>)
    requires
        is_life(states, acts),
        acts.len() > 0,
    ensures
        is_life(states.drop_last(), acts.drop_last()),
        happens(states[acts.len() - 1], acts.last(), states.last()),
{
    let earlier = acts.drop_last();
    assert forall|i: int| 0 <= i < earlier.len() implies happens(
        states.drop_last()[i],
        #[trigger] earlier[i],
        states.drop_last()[i + 1],
    ) by {
        assert(earlier[i] == acts[i]);
    }
    assert(acts[acts.len() - 1] == acts.last());
}

/// A bridge hands out the same egui context all its life.
pub proof fn law_context_stays(states: Seq<EguiBridge>, acts: Seq<Act>, i: int, j: int)
    requires
        is_life(states, acts),
        0 <= i <= j < states.len(),
    ensures
        states[i].share.ctx == states[j].share.ctx,
    decreases j - i,
{
    if i < j {
        assert(happens(states[j - 1], acts[j - 1], states[j]));
        law_context_stays(states, acts, i, j - 1);
    }
}

/// A call that is made for the sake of a frame.
pub enum FrameCall {
    /// egui begins a frame.
    Begin,
    /// egui ends the frame.
    End,
    /// What egui put out at the end of the frame is handled.
    Handle,
}

/// The calls that something brings with it: a frame is ended, and what egui put out is handled,
/// before the next one is begun; the last frame is ended when the bridge is taken down.
pub open spec fn calls_of(act: Act) -> Seq<FrameCall> {
    match act {
        Act::Process { step } => (if step.ends() {
            seq![FrameCall::End, FrameCall::Handle]
        } else {
            Seq::empty()
        }) + (if step.begins() {
            seq![FrameCall::Begin]
        } else {
            Seq::empty()
        }),
        Act::Exit { freed: Some(_) } => seq![FrameCall::End],
        _ => Seq::empty(),
    }
}

/// The calls that all of `acts` bring with them.
pub open spec fn frame_calls(acts: Seq<Act>) -> Seq<FrameCall>
    decreases acts.len(),
{
    if acts.len() == 0 {
        Seq::empty()
    } else {
        frame_calls(acts.drop_last()) + calls_of(acts.last())
    }
}

/// Whether frames are begun, ended and handled in turn.
pub open spec fn in_turn(calls: Seq<FrameCall>) -> bool {
    forall|k: int|
        0 <= k < calls.len() ==> #[trigger] calls[k] == (if k % 3 == 0 {
            FrameCall::Begin
        } else if k % 3 == 1 {
            FrameCall::End
        } else {
            FrameCall::Handle
        })
}

/// How often a call is made.
pub open spec fn times(calls: Seq<FrameCall>, call: FrameCall) -> nat {
    calls.to_multiset().count(call)
}

/// Whether the bridge is never taken down.
pub open spec fn without_exit(acts: Seq<Act>) -> bool {
    forall|i: int| 0 <= i < acts.len() ==> !(#[trigger] acts[i] is Exit)
}

/// Whether the bridge is run at all.
pub open spec fn with_frame(acts: Seq<Act>) -> bool {
    exists|i: int| 0 <= i < acts.len() && #[trigger] acts[i] is Process
}

proof fn lemma_times(calls: Seq<FrameCall>, more: Seq<FrameCall>, call: FrameCall)
    ensures
        times(calls + more, call) == times(calls, call) + times(more, call),
{
    vstd::seq_lib::lemma_multiset_commutative(calls, more);
}

proof fn lemma_times_of(act: Act, call: FrameCall)
    ensures
        times(calls_of(act), call) == (match act {
            Act::Process { step } => match call {
                FrameCall::Begin => if step.begins() {
                    1nat
                } else {
                    0
                },
                _ => if step.ends() {
                    1nat
                } else {
                    0
                },
            },
            Act::Exit { freed: Some(_) } => if call is End {
                1nat
            } else {
                0
            },
            _ => 0,
        }),
{
    broadcast use vstd::seq_lib::group_to_multiset_ensures;

    let none = Seq::<FrameCall>::empty();
    assert(seq![FrameCall::End] =~= none.push(FrameCall::End));
    assert(seq![FrameCall::End, FrameCall::Handle] =~= none.push(FrameCall::End).push(
        FrameCall::Handle,
    ));
    assert(seq![FrameCall::End, FrameCall::Handle] + seq![FrameCall::Begin] =~= none.push(
        FrameCall::End,
    ).push(FrameCall::Handle).push(FrameCall::Begin));
    assert(none + seq![FrameCall::Begin] =~= none.push(FrameCall::Begin));
    assert(none + none =~= none);
}

/// Frames are begun, ended and handled in turn, starting with the first that is begun: no two are
/// open at a time, and as soon as the bridge was run, exactly one is.
pub proof fn law_frames_take_turns(states: Seq<EguiBridge>, acts: Seq<Act>)
    requires
        is_life(states, acts),
        !states[0].started,
        without_exit(acts),
    ensures
        in_turn(frame_calls(acts)),
        states.last().started == with_frame(acts),
        times(frame_calls(acts), FrameCall::Begin) == times(frame_calls(acts), FrameCall::End) + (
        if with_frame(acts) {
            1nat
        } else {
            0
        }),
        times(frame_calls(acts), FrameCall::Handle) == times(frame_calls(acts), FrameCall::End),
{
    lemma_frames_take_turns(states, acts);
}

proof fn lemma_frames_take_turns(states: Seq<EguiBridge>, acts: Seq<Act>)
    requires
        is_life(states, acts),
        !states[0].started,
        without_exit(acts),
    ensures
        in_turn(frame_calls(acts)),
        frame_calls(acts).len() % 3 == (if states.last().started {
            1int
        } else {
            0
        }),
        states.last().started == with_frame(acts),
        times(frame_calls(acts), FrameCall::Begin) == times(frame_calls(acts), FrameCall::End) + (
        if with_frame(acts) {
            1nat
        } else {
            0
        }),
        times(frame_calls(acts), FrameCall::Handle) == times(frame_calls(acts), FrameCall::End),
    decreases acts.len(),
{
    broadcast use vstd::seq_lib::group_to_multiset_ensures;

    if acts.len() > 0 {
        let earlier = acts.drop_last();
        lemma_earlier_life(states, acts);
        assert forall|i: int| 0 <= i < earlier.len() implies !(#[trigger] earlier[i] is Exit) by {
            assert(earlier[i] == acts[i]);
        }
        lemma_frames_take_turns(states.drop_last(), earlier);
        assert(acts[acts.len() - 1] == acts.last());
        assert(states.drop_last().last() == states[acts.len() - 1]);
        assert(with_frame(acts) == (with_frame(earlier) || acts.last() is Process)) by {
            if with_frame(earlier) {
                let i = choose|i: int| 0 <= i < earlier.len() && #[trigger] earlier[i] is Process;
                assert(acts[i] is Process);
            }
            if with_frame(acts) && !(acts.last() is Process) {
                let i = choose|i: int| 0 <= i < acts.len() && #[trigger] acts[i] is Process;
                assert(earlier[i] is Process);
            }
        }
        lemma_times(frame_calls(earlier), calls_of(acts.last()), FrameCall::Begin);
        lemma_times(frame_calls(earlier), calls_of(acts.last()), FrameCall::End);
        lemma_times(frame_calls(earlier), calls_of(acts.last()), FrameCall::Handle);
        lemma_times_of(acts.last(), FrameCall::Begin);
        lemma_times_of(acts.last(), FrameCall::End);
        lemma_times_of(acts.last(), FrameCall::Handle);
    }
}

/// The events that egui got.
pub open spec fn handed_over(acts: Seq<Act>) -> Seq<u64>
    decreases acts.len(),
{
    if acts.len() == 0 {
        Seq::empty()
    } else {
        match acts.last() {
            Act::Input { events } => handed_over(acts.drop_last()) + events,
            _ => handed_over(acts.drop_last()),
        }
    }
}

/// The events that arrived.
pub open spec fn arrived(acts: Seq<Act>) -> Seq<u64>
    decreases acts.len(),
{
    if acts.len() == 0 {
        Seq::empty()
    } else {
        match acts.last() {
            Act::Push { event } => arrived(acts.drop_last()).push(event),
            _ => arrived(acts.drop_last()),
        }
    }
}

/// Every event that arrives is handed over once, in order, or is waiting still; none waits when a
/// frame has just been begun.
pub proof fn law_events_are_handed_over(states: Seq<EguiBridge>, acts: Seq<Act>)
    requires
        is_life(states, acts),
    ensures
        handed_over(acts) + queued(states.last().share.events) == queued(states[0].share.events)
            + arrived(acts),
        acts.len() > 0 && acts.last() is Input ==> queued(states.last().share.events) == Seq::<
            u64,
        >::empty(),
    decreases acts.len(),
{
    if acts.len() == 0 {
        assert(handed_over(acts) + queued(states.last().share.events) =~= queued(
            states[0].share.events,
        ) + arrived(acts));
    } else {
        lemma_earlier_life(states, acts);
        law_events_are_handed_over(states.drop_last(), acts.drop_last());
        assert(states.drop_last().last() == states[acts.len() - 1]);
        let first = queued(states[0].share.events);
        let before = queued(states[acts.len() - 1].share.events);
        let after = queued(states.last().share.events);
        let handed = handed_over(acts.drop_last());
        match acts.last() {
            Act::Input { events } => {
                assert((handed + events) + after =~= handed + before);
                assert(handed_over(acts) + after =~= handed_over(acts));
            },
            Act::Push { event } => {
                assert(handed + after =~= (handed + before).push(event));
                assert(first + arrived(acts) =~= (first + arrived(acts.drop_last())).push(event));
            },
            _ => {},
        }
    }
}

/// The nodes that were made, by their handles.
pub open spec fn nodes(acts: Seq<Act>) -> Map<u64, EguiViewportIoBridge>
    decreases acts.len(),
{
    if acts.len() == 0 {
        Map::empty()
    } else {
        match acts.last() {
            Act::Spawn { io } => nodes(acts.drop_last()).insert(io.control, io),
            _ => nodes(acts.drop_last()),
        }
    }
}

/// Whether no viewport is shown by the control.
pub open spec fn is_unused(bridge: EguiBridge, control: u64) -> bool {
    forall|id: u64| #[trigger]
        bridge.viewports@.contains_key(id) ==> bridge.viewports@[id].control != control
}

/// One viewport, one node: as long as each viewport is spawned in a control that shows no other,
/// every viewport is shown by a node that was made for it, and no two by the same.
pub proof fn law_one_viewport_one_node(states: Seq<EguiBridge>, acts: Seq<Act>)
    requires
        is_life(states, acts),
        states[0].viewports@.dom() == Set::<u64>::empty(),
        forall|i: int|
            0 <= i < acts.len() ==> (#[trigger] acts[i] matches Act::Spawn { io } ==> is_unused(
                states[i],
                io.control,
            )),
    ensures
        ({
            let viewports = states.last().viewports@;
            &&& forall|id: u64| #[trigger]
                viewports.contains_key(id) ==> nodes(acts).contains_key(viewports[id].control)
                    && nodes(acts)[viewports[id].control] == (EguiViewportIoBridge {
                    self_id: id,
                    control: viewports[id].control,
                })
            &&& forall|id: u64, other: u64| #[trigger]
                viewports.contains_key(id) && #[trigger] viewports.contains_key(other) && id
                    != other ==> viewports[id].control != viewports[other].control
        }),
    decreases acts.len(),
{
    if acts.len() > 0 {
        let earlier = acts.drop_last();
        lemma_earlier_life(states, acts);
        assert forall|i: int| 0 <= i < earlier.len() implies (#[trigger] earlier[i] matches
            Act::Spawn { io } ==> is_unused(states.drop_last()[i], io.control)) by {
            assert(earlier[i] == acts[i]);
        }
        law_one_viewport_one_node(states.drop_last(), earlier);
        assert(states.drop_last().last() == states[acts.len() - 1]);
        let before = states[acts.len() - 1].viewports@;
        let after = states.last().viewports@;
        assert(acts[acts.len() - 1] == acts.last());
        assert forall|id: u64| #[trigger] after.contains_key(id) implies nodes(acts).contains_key(
            after[id].control,
        ) && nodes(acts)[after[id].control] == (EguiViewportIoBridge {
            self_id: id,
            control: after[id].control,
        }) by {
            assert(controls(after).contains_key(id) && controls(after)[id] == after[id].control);
            if before.contains_key(id) {
                assert(controls(before)[id] == before[id].control);
            }
        }
        assert forall|id: u64, other: u64| #[trigger]
            after.contains_key(id) && #[trigger] after.contains_key(other) && id
                != other implies after[id].control != after[other].control by {
            assert(controls(after).contains_key(id) && controls(after)[id] == after[id].control);
            assert(controls(after).contains_key(other) && controls(after)[other]
                == after[other].control);
            if before.contains_key(id) {
                assert(controls(before)[id] == before[id].control);
            }
            if before.contains_key(other) {
                assert(controls(before)[other] == before[other].control);
            }
        }
    }
}

/// The canvas items that were handed in.
pub open spec fn items_made(acts: Seq<Act>) -> Seq<u64>
    decreases acts.len(),
{
    if acts.len() == 0 {
        Seq::empty()
    } else {
        match acts.last() {
            Act::Fit { primitives: _, fresh, freed: _ } => items_made(acts.drop_last()) + fresh,
            _ => items_made(acts.drop_last()),
        }
    }
}

/// The canvas items that were given up.
pub open spec fn items_freed(acts: Seq<Act>) -> Seq<u64>
    decreases acts.len(),
{
    if acts.len() == 0 {
        Seq::empty()
    } else {
        match acts.last() {
            Act::Fit { primitives: _, fresh: _, freed } => items_freed(acts.drop_last()) + freed,
            Act::Exit { freed: Some(items) } => items_freed(acts.drop_last()) + items,
            _ => items_freed(acts.drop_last()),
        }
    }
}

/// Every canvas item that was handed in was given up once, or is there still.
pub proof fn law_items_are_there_or_freed(states: Seq<EguiBridge>, acts: Seq<Act>)
    requires
        is_life(states, acts),
        states[0].canvas_items@.len() == 0,
    ensures
        (items_freed(acts) + states.last().canvas_items@).to_multiset() == items_made(
            acts,
        ).to_multiset(),
    decreases acts.len(),
{
    broadcast use vstd::seq_lib::group_to_multiset_ensures;

    if acts.len() == 0 {
        assert(items_freed(acts) + states.last().canvas_items@ =~= items_made(acts));
    } else {
        lemma_earlier_life(states, acts);
        law_items_are_there_or_freed(states.drop_last(), acts.drop_last());
        assert(states.drop_last().last() == states[acts.len() - 1]);
        let before = states[acts.len() - 1].canvas_items@;
        let after = states.last().canvas_items@;
        let gone = items_freed(acts.drop_last());
        let made = items_made(acts.drop_last());
        match acts.last() {
            Act::Fit { primitives, fresh, freed } => {
                crate::canvas::law_no_item_is_lost(before, fresh, primitives);
                vstd::seq_lib::lemma_multiset_commutative(gone, before);
                vstd::seq_lib::lemma_multiset_commutative(made, fresh);
                vstd::seq_lib::lemma_multiset_commutative(gone + freed, after);
                vstd::seq_lib::lemma_multiset_commutative(gone, freed);
                vstd::seq_lib::lemma_multiset_commutative(after, freed);
                vstd::seq_lib::lemma_multiset_commutative(before, fresh);
                assert((gone + freed + after).to_multiset() =~= (made + fresh).to_multiset());
            },
            Act::Exit { freed: Some(items) } => {
                assert(gone + items + after =~= gone + before);
            },
            _ => {},
        }
    }
}

/// When a bridge is taken down at the end of its life, every canvas item that was ever handed in
/// has been given up, each once, and every frame that was begun has been ended.
pub proof fn law_life_ends_clean(states: Seq<EguiBridge>, acts: Seq<Act>)
    requires
        is_life(states, acts),
        !states[0].started,
        states[0].canvas_items@.len() == 0,
        acts.len() > 0,
        acts.last() is Exit,
        without_exit(acts.drop_last()),
        forall|i: int| 0 <= i < acts.len() && #[trigger] acts[i] is Fit ==> states[i].started,
    ensures
        items_freed(acts).to_multiset() == items_made(acts).to_multiset(),
        in_turn(frame_calls(acts)),
        times(frame_calls(acts), FrameCall::Begin) == times(frame_calls(acts), FrameCall::End),
{
    lemma_earlier_life(states, acts);
    lemma_frames_take_turns(states.drop_last(), acts.drop_last());
    assert(states.drop_last().last() == states[acts.len() - 1]);
    lemma_times(frame_calls(acts.drop_last()), calls_of(acts.last()), FrameCall::Begin);
    lemma_times(frame_calls(acts.drop_last()), calls_of(acts.last()), FrameCall::End);
    lemma_times_of(acts.last(), FrameCall::Begin);
    lemma_times_of(acts.last(), FrameCall::End);
    law_items_are_there_or_freed(states, acts);
    if !states[acts.len() - 1].started {
        lemma_unstarted(states.drop_last(), acts.drop_last());
    }
    assert(items_freed(acts) + states.last().canvas_items@ =~= items_freed(acts));
}

/// Before the first frame there are no canvas items.
proof fn lemma_unstarted(states: Seq<EguiBridge>, acts: Seq<Act>)
    requires
        is_life(states, acts),
        states[0].canvas_items@.len() == 0,
        !states.last().started,
        forall|i: int| 0 <= i < acts.len() && #[trigger] acts[i] is Fit ==> states[i].started,
    ensures
        states.last().canvas_items@.len() == 0,
    decreases acts.len(),
{
    if acts.len() > 0 {
        let earlier = acts.drop_last();
        lemma_earlier_life(states, acts);
        assert forall|i: int|
            0 <= i < earlier.len() && #[trigger] earlier[i] is Fit implies
            states.drop_last()[i].started by {
            assert(earlier[i] == acts[i]);
        }
        assert(acts[acts.len() - 1] == acts.last());
        assert(states.drop_last().last() == states[acts.len() - 1]);
        lemma_unstarted(states.drop_last(), earlier);
    }
}

} // verus!
