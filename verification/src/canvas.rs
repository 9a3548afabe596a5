//! The canvas items that primitives are painted onto, one for each.

use crate::signed::{low_signed, to_signed};
use vstd::prelude::*;

verus! {

/// Handles of the canvas items, in drawing order.
pub struct CanvasItems {
    items: Vec<u64>,
}

/// A canvas item that has just been made, and the place in drawing order that it gets.
#[derive(Clone, Copy, Debug, PartialEq, Eq, Structural)]
pub struct PlacedItem {
    pub item: u64,
    pub draw_index: i32,
}

/// What is to be done so that there are as many canvas items as primitives.
pub struct CanvasFit {
    /// New items, to be set up.
    pub placed: Vec<PlacedItem>,
    /// Items that are not needed any more, to be freed.
    pub freed: Vec<u64>,
}

impl View for CanvasItems {
    type V = Seq<u64>;

    closed spec fn view(&self) -> Seq<u64> {
        self.items@
    }
}

/// How many canvas items have to be made before so many primitives can be painted.
pub open spec fn missing_items(items: Seq<u64>, primitives: nat) -> nat {
    if primitives > items.len() {
        (primitives - items.len()) as nat
    } else {
        0
    }
}

/// New canvas items with their places behind those that are there.
pub open spec fn placed_behind(items: Seq<u64>, fresh: Seq<u64>) -> Seq<PlacedItem> {
    Seq::new(
        fresh.len(),
        |i: int|
            PlacedItem { item: fresh[i], draw_index: low_signed(items.len() + i) as i32 },
    )
}

/// The canvas items that so many primitives are painted onto.
pub open spec fn kept_items(items: Seq<u64>, fresh: Seq<u64>, primitives: nat) -> Seq<u64> {
    (items + fresh).take(primitives as int)
}

/// The canvas items that so many primitives do not need.
pub open spec fn freed_items(items: Seq<u64>, fresh: Seq<u64>, primitives: nat) -> Seq<u64> {
    (items + fresh).skip(primitives as int)
}

/// There are as many items as primitives afterwards, and every item, old or new, either is one
/// of them or is freed.
pub proof fn law_no_item_is_lost(items: Seq<u64>, fresh: Seq<u64>, primitives: nat)
    requires
        fresh.len() == missing_items(items, primitives),
    ensures
        ({
            let kept = kept_items(items, fresh, primitives);
            let freed = freed_items(items, fresh, primitives);
            &&& kept.len() == primitives
            &&& kept + freed == items + fresh
            &&& fresh.len() == 0 || freed.len() == 0
        }),
{
    assert(kept_items(items, fresh, primitives) + freed_items(items, fresh, primitives) =~= items
        + fresh);
}

/// Only what is missing is made, and afterwards there are enough items.
pub proof fn law_only_missing_items_are_made(items: Seq<u64>, primitives: nat)
    ensures
        items.len() + missing_items(items, primitives) >= primitives,
        missing_items(items, primitives) > 0 ==> items.len() + missing_items(items, primitives)
            == primitives,
{
}

/// As long as there are enough items none is made, those in front stay where they are, and those
/// behind are freed.
pub proof fn law_front_items_stay(items: Seq<u64>, fresh: Seq<u64>, primitives: nat, i: int)
    requires
        fresh.len() == missing_items(items, primitives),
        0 <= i < items.len(),
    ensures
        i < primitives ==> kept_items(items, fresh, primitives)[i] == items[i],
        i >= primitives ==> freed_items(items, fresh, primitives)[i - primitives] == items[i],
{
}

/// Every new item gets its own position among all items as its place in drawing order: the places
/// go up by one from item to item, for as long as they can be counted.
pub proof fn law_items_are_drawn_in_order(items: Seq<u64>, fresh: Seq<u64>, i: int)
    requires
        0 <= i < fresh.len(),
    ensures
        ({
            let placed = placed_behind(items, fresh);
            &&& placed.len() == fresh.len()
            &&& placed[i].item == fresh[i]
            &&& placed[i].item == (items + fresh)[items.len() + i]
            &&& (placed[i].draw_index - (items.len() + i)) % 0x1_0000_0000 == 0
            &&& items.len() + i <= i32::MAX ==> placed[i].draw_index == items.len() + i
            &&& forall|j: int|
                0 <= j < i && items.len() + i <= i32::MAX ==> (#[trigger] placed[j]).draw_index
                    < placed[i].draw_index
        }),
{
    crate::signed::law_low_signed_is_congruent(items.len() + i);
}

impl CanvasItems {
    /// No canvas items.
    pub fn new() -> (canvas: CanvasItems)
        ensures
            canvas@ == Seq::<u64>::empty(),
    {
        CanvasItems { items: Vec::new() }
    }

    /// The number of canvas items.
    pub fn len(&self) -> (len: usize)
        ensures
            len == self@.len(),
    {
        self.items.len()
    }

    /// The canvas item at a place in drawing order.
    pub fn item(&self, index: usize) -> (item: u64)
        requires
            index < self@.len(),
        ensures
            item == self@[index as int],
    {
        self.items[index]
    }

    /// How many canvas items have to be made before so many primitives can be painted.
    pub fn missing(&self, primitives: usize) -> (missing: usize)
        ensures
            missing == missing_items(self@, primitives as nat),
    {
        if primitives > self.items.len() {
            primitives - self.items.len()
        } else {
            0
        }
    }

    /// Takes up the canvas items that were missing, and gives up those that are not needed.
    pub fn fit(&mut self, primitives: usize, fresh: Vec<u64>) -> (fit: CanvasFit)
        requires
            fresh@.len() == missing_items(old(self)@, primitives as nat),
        ensures
            final(self)@ == kept_items(old(self)@, fresh@, primitives as nat),
            fit.placed@ == placed_behind(old(self)@, fresh@),
            fit.freed@ == freed_items(old(self)@, fresh@, primitives as nat),
            final(self)@.len() == primitives,
            final(self)@ + fit.freed@ == old(self)@ + fresh@,
            fit.placed@.len() == fresh@.len(),
            forall|i: int|
                0 <= i < fresh@.len() ==> {
                    let placed = #[trigger] fit.placed@[i];
                    &&& placed.item == fresh@[i]
                    &&& (placed.draw_index - (old(self)@.len() + i)) % 0x1_0000_0000 == 0
                },
    {
        let mut placed: Vec<PlacedItem> = Vec::new();
        let mut i: usize = 0;
        while i < fresh.len()
            invariant
                i <= fresh@.len(),
                fresh@.len() == missing_items(old(self)@, primitives as nat),
                self@ == old(self)@ + fresh@.take(i as int),
                placed@ == placed_behind(old(self)@, fresh@).take(i as int),
            decreases fresh.len() - i,
        {
            let draw_index = to_signed(self.items.len() as u64);
            placed.push(PlacedItem { item: fresh[i], draw_index });
            self.items.push(fresh[i]);
            i = i + 1;
            assert(self@ =~= old(self)@ + fresh@.take(i as int));
            assert(placed@ =~= placed_behind(old(self)@, fresh@).take(i as int));
        }
        assert(fresh@.take(i as int) =~= fresh@);
        assert(placed@ =~= placed_behind(old(self)@, fresh@));
        let freed = self.items.split_off(primitives);
        assert(self@ =~= kept_items(old(self)@, fresh@, primitives as nat));
        assert(freed@ =~= freed_items(old(self)@, fresh@, primitives as nat));
        assert(self@ + freed@ =~= old(self)@ + fresh@);
        CanvasFit { placed, freed }
    }

    /// Gives up every canvas item.
    pub fn drain(&mut self) -> (freed: Vec<u64>)
        ensures
            freed@ == old(self)@,
            final(self)@ == Seq::<u64>::empty(),
    {
        let freed = self.items.split_off(0);
        assert(freed@ =~= old(self)@);
        assert(self@ =~= Seq::<u64>::empty());
        freed
    }
}

} // verus!
