//! What egui is told at the start of a frame.

use crate::viewport::{Rect, ViewportContext, ViewportInfo, ONE_BITS};
use std::collections::HashMap;
use vstd::prelude::*;

verus! {

broadcast use vstd::std_specs::hash::group_hash_axioms;

/// The longest side that a texture may have.
pub const MAX_TEXTURE_SIDE: usize = 8192;

/// Which of the keys that modify others are held down.
#[derive(Clone, Copy, Debug, PartialEq, Eq)]
pub struct HeldKeys {
    pub alt: bool,
    pub ctrl: bool,
    pub shift: bool,
    pub meta: bool,
}

/// The modifiers as egui knows them.
#[derive(Clone, Copy, Debug, PartialEq, Eq)]
pub struct Modifiers {
    pub alt: bool,
    pub ctrl: bool,
    pub shift: bool,
    pub mac_cmd: bool,
    pub command: bool,
}

/// What egui is told at the start of a frame.
pub struct FrameInput {
    /// The viewport that input goes to.
    pub viewport_id: u64,
    pub viewports: HashMap<u64, ViewportInfo>,
    /// Where the root viewport lies.
    pub screen_rect: Option<Rect>,
    pub max_texture_side: Option<usize>,
    pub modifiers: Modifiers,
    pub events: Vec<u64>,
    /// Whether any viewport has the keyboard focus.
    pub focused: bool,
    /// By how much everything is to be enlarged before the frame, where it is.
    pub zoom_factor: Option<u32>,
}

impl HeldKeys {
    /// The meta key counts as the command key, on every platform.
    pub open spec fn as_modifiers(self) -> Modifiers {
        Modifiers {
            alt: self.alt,
            ctrl: self.ctrl,
            shift: self.shift,
            mac_cmd: self.meta,
            command: self.meta,
        }
    }

    /// The modifiers that the keys make up.
    pub fn modifiers(&self) -> (modifiers: Modifiers)
        ensures
            modifiers == self.as_modifiers(),
            modifiers.alt == self.alt,
            modifiers.ctrl == self.ctrl,
            modifiers.shift == self.shift,
            modifiers.mac_cmd == self.meta,
            modifiers.command == self.meta,
    {
        Modifiers {
            alt: self.alt,
            ctrl: self.ctrl,
            shift: self.shift,
            mac_cmd: self.meta,
            command: self.meta,
        }
    }
}

/// What egui is told about each viewport that is shown.
pub open spec fn unscaled_infos(viewports: Map<u64, ViewportContext>) -> Map<u64, ViewportInfo> {
    viewports.map_values(|context: ViewportContext| context.input.unscaled())
}

/// What egui is told about each viewport that is shown.
pub(crate) fn viewport_infos(viewports: &HashMap<u64, ViewportContext>) -> (infos: HashMap<
    u64,
    ViewportInfo,
>)
    ensures
        infos@ == unscaled_infos(viewports@),
{
    let mut infos: HashMap<u64, ViewportInfo> = HashMap::new();
    for id in iter: viewports.keys()
        invariant
            forall|id: u64| #[trigger]
                infos@.contains_key(id) ==> viewports@.contains_key(id) && infos@[id]
                    == viewports@[id].input.unscaled(),
            forall|i: int| 0 <= i < iter.index() ==> infos@.contains_key(*#[trigger] iter.seq()[i]),
    {
        assert(iter.seq().unref()[iter.index()] == *id);
        if let Some(context) = viewports.get(id) {
            let mut info = context.input;
            info.native_pixels_per_point = Some(ONE_BITS);
            infos.insert(*id, info);
        }
    }
    assert(infos@ =~= unscaled_infos(viewports@));
    infos
}

/// Each key gives its own modifier and no other; the meta key gives both command modifiers.
pub proof fn law_each_key_gives_its_modifier(keys: HeldKeys)
    ensures
        keys.as_modifiers().alt == keys.alt,
        keys.as_modifiers().ctrl == keys.ctrl,
        keys.as_modifiers().shift == keys.shift,
        keys.as_modifiers().mac_cmd == keys.meta,
        keys.as_modifiers().command == keys.meta,
{
}

/// egui is told about the viewports that are shown and no others, and of each what is known about
/// it, drawn at one pixel for each point.
pub proof fn law_every_viewport_is_told_about(viewports: Map<u64, ViewportContext>, id: u64)
    ensures
        unscaled_infos(viewports).contains_key(id) <==> viewports.contains_key(id),
        viewports.contains_key(id) ==> {
            let info = unscaled_infos(viewports)[id];
            &&& info.inner_rect == viewports[id].input.inner_rect
            &&& info.focused == viewports[id].input.focused
            &&& info.native_pixels_per_point == Some(0x3f80_0000u32)
        },
{
}

} // verus!
