//! The area that all screens cover together, and the render target that is laid over it.

use crate::single::{law_single_exact, lemma_single_range, single, to_single, SINGLE_LIMIT};
use vstd::prelude::*;

verus! {

/// Where a screen lies on the desktop, in pixels.
#[derive(Clone, Copy, Debug, PartialEq, Eq)]
pub struct Screen {
    pub x: i32,
    pub y: i32,
    pub width: i32,
    pub height: i32,
}

impl Screen {
    /// Whether the far corner has coordinates of its own.
    pub open spec fn fits(self) -> bool {
        &&& i32::MIN <= self.x + self.width <= i32::MAX
        &&& i32::MIN <= self.y + self.height <= i32::MAX
    }
}

/// A rectangle around a number of points. Coordinates are whole numbers that single precision
/// can hold.
#[derive(Clone, Copy, Debug, PartialEq, Eq, Structural)]
pub enum ScreenRect {
    /// Around no point at all.
    Nothing,
    /// Around at least one point.
    Around { min_x: i64, min_y: i64, max_x: i64, max_y: i64 },
}

/// Where the render target lies on the desktop, and its size.
#[derive(Clone, Copy, Debug, PartialEq, Eq)]
pub struct RenderTarget {
    pub global_offset: (u32, u32),
    pub size: (i32, i32),
}

/// The lesser of two numbers.
pub open spec fn lesser(a: int, b: int) -> int {
    if a <= b {
        a
    } else {
        b
    }
}

/// The greater of two numbers.
pub open spec fn greater(a: int, b: int) -> int {
    if a >= b {
        a
    } else {
        b
    }
}

impl ScreenRect {
    /// Whether the coordinates are those of a rectangle around points that 32 bits can name.
    pub open spec fn wf(self) -> bool {
        match self {
            ScreenRect::Nothing => true,
            ScreenRect::Around { min_x, min_y, max_x, max_y } => {
                &&& -0x1_0000_0001 <= min_x <= max_x <= 0x1_0000_0001
                &&& -0x1_0000_0001 <= min_y <= max_y <= 0x1_0000_0001
            },
        }
    }

    /// Whether the rectangle reaches the point.
    pub open spec fn contains(self, x: int, y: int) -> bool {
        match self {
            ScreenRect::Nothing => false,
            ScreenRect::Around { min_x, min_y, max_x, max_y } => min_x <= x <= max_x && min_y <= y
                <= max_y,
        }
    }

    /// The smallest rectangle that reaches the point and all of this one.
    pub open spec fn extended(self, x: int, y: int) -> ScreenRect {
        match self {
            ScreenRect::Nothing => ScreenRect::Around {
                min_x: x as i64,
                min_y: y as i64,
                max_x: x as i64,
                max_y: y as i64,
            },
            ScreenRect::Around { min_x, min_y, max_x, max_y } => ScreenRect::Around {
                min_x: lesser(min_x as int, x) as i64,
                min_y: lesser(min_y as int, y) as i64,
                max_x: greater(max_x as int, x) as i64,
                max_y: greater(max_y as int, y) as i64,
            },
        }
    }

    fn extend_with(&mut self, x: i64, y: i64)
        ensures
            *final(self) == old(self).extended(x as int, y as int),
    {
        match *self {
            ScreenRect::Nothing => {
                *self = ScreenRect::Around { min_x: x, min_y: y, max_x: x, max_y: y };
            },
            ScreenRect::Around { min_x, min_y, max_x, max_y } => {
                *self =
                ScreenRect::Around {
                    min_x: if min_x <= x {
                        min_x
                    } else {
                        x
                    },
                    min_y: if min_y <= y {
                        min_y
                    } else {
                        y
                    },
                    max_x: if max_x >= x {
                        max_x
                    } else {
                        x
                    },
                    max_y: if max_y >= y {
                        max_y
                    } else {
                        y
                    },
                };
            },
        }
    }
}

/// The rectangle around the near and the far corner of every screen.
pub open spec fn screens_rect(screens: Seq<Screen>) -> ScreenRect
    decreases screens.len(),
{
    if screens.len() == 0 {
        ScreenRect::Nothing
    } else {
        let s = screens.last();
        screens_rect(screens.drop_last()).extended(
            single(s.x as int),
            single(s.y as int),
        ).extended(single(s.x + s.width), single(s.y + s.height))
    }
}

/// Whether the rectangle reaches both corners of every screen.
pub open spec fn reaches_all(bound: ScreenRect, screens: Seq<Screen>) -> bool {
    forall|i: int|
        0 <= i < screens.len() ==> {
            let s = #[trigger] screens[i];
            &&& bound.contains(single(s.x as int), single(s.y as int))
            &&& bound.contains(single(s.x + s.width), single(s.y + s.height))
        }
}

/// The rectangle around the screens reaches both corners of each of them, and every other
/// rectangle that does so covers it.
pub proof fn law_screens_rect_is_smallest(screens: Seq<Screen>, other: ScreenRect)
    requires
        forall|i: int| 0 <= i < screens.len() ==> (#[trigger] screens[i]).fits(),
    ensures
        reaches_all(screens_rect(screens), screens),
        reaches_all(other, screens) ==> forall|x: int, y: int| #[trigger]
            screens_rect(screens).contains(x, y) ==> other.contains(x, y),
{
    lemma_reaches(screens);
    if reaches_all(other, screens) {
        lemma_covered(screens, other);
    }
}

proof fn lemma_reaches(screens: Seq<Screen>)
    requires
        forall|i: int| 0 <= i < screens.len() ==> (#[trigger] screens[i]).fits(),
    ensures
        reaches_all(screens_rect(screens), screens),
    decreases screens.len(),
{
    if screens.len() > 0 {
        let rest = screens.drop_last();
        let s = screens.last();
        lemma_single_range(s.x as int);
        lemma_single_range(s.y as int);
        lemma_single_range(s.x + s.width);
        lemma_single_range(s.y + s.height);
        assert forall|i: int| 0 <= i < rest.len() implies (#[trigger] rest[i]).fits() by {
            assert(rest[i] == screens[i]);
        }
        lemma_reaches(rest);
        let full = screens_rect(screens);
        assert forall|i: int| 0 <= i < screens.len() implies {
            let t = #[trigger] screens[i];
            &&& full.contains(single(t.x as int), single(t.y as int))
            &&& full.contains(single(t.x + t.width), single(t.y + t.height))
        } by {
            if i < rest.len() {
                assert(rest[i] == screens[i]);
            }
        }
    }
}

/// A rectangle that reaches both corners of every screen reaches the corners of the rectangle
/// around them.
proof fn lemma_covered(screens: Seq<Screen>, other: ScreenRect)
    requires
        forall|i: int| 0 <= i < screens.len() ==> (#[trigger] screens[i]).fits(),
        reaches_all(other, screens),
    ensures
        screens_rect(screens) matches ScreenRect::Around { min_x, min_y, max_x, max_y }
            ==> other.contains(min_x as int, min_y as int) && other.contains(
            max_x as int,
            max_y as int,
        ),
    decreases screens.len(),
{
    if screens.len() > 0 {
        let rest = screens.drop_last();
        let s = screens.last();
        lemma_single_range(s.x as int);
        lemma_single_range(s.y as int);
        lemma_single_range(s.x + s.width);
        lemma_single_range(s.y + s.height);
        assert forall|i: int| 0 <= i < rest.len() implies (#[trigger] rest[i]).fits() && ({
            let t = rest[i];
            &&& other.contains(single(t.x as int), single(t.y as int))
            &&& other.contains(single(t.x + t.width), single(t.y + t.height))
        }) by {
            assert(rest[i] == screens[i]);
        }
        assert(screens[screens.len() - 1] == s);
        lemma_covered(rest, other);
    }
}

/// The rectangle around the near and the far corner of every screen.
pub fn total_screen_rect(screens: &Vec<Screen>) -> (bound: ScreenRect)
    requires
        forall|i: int| 0 <= i < screens@.len() ==> (#[trigger] screens@[i]).fits(),
    ensures
        bound == screens_rect(screens@),
        bound.wf(),
{
    let mut bound = ScreenRect::Nothing;
    let mut i: usize = 0;
    while i < screens.len()
        invariant
            i <= screens.len(),
            bound == screens_rect(screens@.take(i as int)),
            bound.wf(),
            forall|i: int| 0 <= i < screens@.len() ==> (#[trigger] screens@[i]).fits(),
        decreases screens.len() - i,
    {
        let screen = screens[i];
        proof {
            assert(screens@.take(i + 1).drop_last() =~= screens@.take(i as int));
            lemma_single_range(screen.x as int);
            lemma_single_range(screen.y as int);
            lemma_single_range(screen.x + screen.width);
            lemma_single_range(screen.y + screen.height);
        }
        bound.extend_with(to_single(screen.x as i64), to_single(screen.y as i64));
        bound.extend_with(
            to_single((screen.x + screen.width) as i64),
            to_single((screen.y + screen.height) as i64),
        );
        i = i + 1;
    }
    proof {
        assert(screens@.take(screens@.len() as int) =~= screens@);
    }
    bound
}

/// The coordinate of the render target's corner: none is left of, or above, the desktop's origin.
pub open spec fn offset_of(min: int) -> int {
    lesser(greater(min, 0), u32::MAX as int)
}

/// The extent between two coordinates, in single precision, or the largest extent there is.
pub open spec fn extent_of(min: int, max: int) -> int {
    lesser(single(max - min), i32::MAX as int)
}

/// The render target over a rectangle. Over nothing, the corner is beyond every coordinate and
/// the size is below every size.
pub open spec fn target_over(bound: ScreenRect) -> RenderTarget {
    match bound {
        ScreenRect::Nothing => RenderTarget {
            global_offset: (u32::MAX, u32::MAX),
            size: (i32::MIN, i32::MIN),
        },
        ScreenRect::Around { min_x, min_y, max_x, max_y } => RenderTarget {
            global_offset: (offset_of(min_x as int) as u32, offset_of(min_y as int) as u32),
            size: (
                extent_of(min_x as int, max_x as int) as i32,
                extent_of(min_y as int, max_y as int) as i32,
            ),
        },
    }
}

/// On a desktop that starts at or behind the origin and measures fewer pixels than need more than
/// 24 significant bits, the render target lies exactly over the screens.
pub proof fn law_target_covers_ordinary_screens(bound: ScreenRect)
    requires
        bound matches ScreenRect::Around { min_x, min_y, max_x, max_y } && 0 <= min_x <= max_x
            < SINGLE_LIMIT && 0 <= min_y <= max_y < SINGLE_LIMIT,
    ensures
        bound matches ScreenRect::Around { min_x, min_y, max_x, max_y } && {
            let target = target_over(bound);
            &&& target.global_offset.0 == min_x
            &&& target.global_offset.1 == min_y
            &&& target.size.0 == max_x - min_x
            &&& target.size.1 == max_y - min_y
        },
{
    if let ScreenRect::Around { min_x, min_y, max_x, max_y } = bound {
        law_single_exact(max_x - min_x);
        law_single_exact(max_y - min_y);
    }
}

fn offset(min: i64) -> (coordinate: u32)
    ensures
        coordinate == offset_of(min as int),
{
    if min <= 0 {
        0
    } else if min <= 0xffff_ffff {
        min as u32
    } else {
        u32::MAX
    }
}

fn extent(min: i64, max: i64) -> (extent: i32)
    requires
        -0x1_0000_0001 <= min <= max <= 0x1_0000_0001,
    ensures
        extent == extent_of(min as int, max as int),
{
    let held: i64 = to_single(max - min);
    proof {
        lemma_single_range(max - min);
    }
    if held <= 0x7fff_ffff {
        held as i32
    } else {
        0x7fff_ffff
    }
}

/// The render target that covers every screen.
pub fn render_target(bound: ScreenRect) -> (target: RenderTarget)
    requires
        bound.wf(),
    ensures
        target == target_over(bound),
{
    match bound {
        ScreenRect::Nothing => RenderTarget {
            global_offset: (u32::MAX, u32::MAX),
            size: (i32::MIN, i32::MIN),
        },
        ScreenRect::Around { min_x, min_y, max_x, max_y } => RenderTarget {
            global_offset: (offset(min_x), offset(min_y)),
            size: (extent(min_x, max_x), extent(min_y, max_y)),
        },
    }
}

/// Whether a coordinate is that of the near or the far side of a screen.
pub open spec fn is_side(side: int, near: int, length: int) -> bool {
    side == single(near) || side == single(near + length)
}

/// The rectangle around the screens has none of their sides beyond it, and each of its own sides
/// is a side of one of the screens. Only without screens there is no rectangle.
pub proof fn law_screens_rect_is_bounded_by_screens(screens: Seq<Screen>)
    requires
        forall|i: int| 0 <= i < screens.len() ==> (#[trigger] screens[i]).fits(),
    ensures
        screens_rect(screens) is Nothing <==> screens.len() == 0,
        screens_rect(screens) matches ScreenRect::Around { min_x, min_y, max_x, max_y } ==> {
            &&& forall|i: int|
                0 <= i < screens.len() ==> {
                    let s = #[trigger] screens[i];
                    &&& min_x <= single(s.x as int) <= max_x
                    &&& min_y <= single(s.y as int) <= max_y
                    &&& min_x <= single(s.x + s.width) <= max_x
                    &&& min_y <= single(s.y + s.height) <= max_y
                }
            &&& exists|i: int|
                0 <= i < screens.len() && is_side(
                    min_x as int,
                    (#[trigger] screens[i]).x as int,
                    screens[i].width as int,
                )
            &&& exists|i: int|
                0 <= i < screens.len() && is_side(
                    min_y as int,
                    (#[trigger] screens[i]).y as int,
                    screens[i].height as int,
                )
            &&& exists|i: int|
                0 <= i < screens.len() && is_side(
                    max_x as int,
                    (#[trigger] screens[i]).x as int,
                    screens[i].width as int,
                )
            &&& exists|i: int|
                0 <= i < screens.len() && is_side(
                    max_y as int,
                    (#[trigger] screens[i]).y as int,
                    screens[i].height as int,
                )
        },
    decreases screens.len(),
{
    if screens.len() > 0 {
        let rest = screens.drop_last();
        let s = screens.last();
        let last = screens.len() - 1;
        lemma_single_range(s.x as int);
        lemma_single_range(s.y as int);
        lemma_single_range(s.x + s.width);
        lemma_single_range(s.y + s.height);
        assert forall|i: int| 0 <= i < rest.len() implies (#[trigger] rest[i]).fits() by {
            assert(rest[i] == screens[i]);
        }
        law_screens_rect_is_bounded_by_screens(rest);
        assert(screens[last] == s);
        assert forall|i: int| 0 <= i < rest.len() implies #[trigger] screens[i] == rest[i] by {}
        if let ScreenRect::Around { min_x, min_y, max_x, max_y } = screens_rect(rest) {
            let a = choose|i: int|
                0 <= i < rest.len() && is_side(
                    min_x as int,
                    (#[trigger] rest[i]).x as int,
                    rest[i].width as int,
                );
            let b = choose|i: int|
                0 <= i < rest.len() && is_side(
                    min_y as int,
                    (#[trigger] rest[i]).y as int,
                    rest[i].height as int,
                );
            let c = choose|i: int|
                0 <= i < rest.len() && is_side(
                    max_x as int,
                    (#[trigger] rest[i]).x as int,
                    rest[i].width as int,
                );
            let d = choose|i: int|
                0 <= i < rest.len() && is_side(
                    max_y as int,
                    (#[trigger] rest[i]).y as int,
                    rest[i].height as int,
                );
            assert(screens[a] == rest[a]);
            assert(screens[b] == rest[b]);
            assert(screens[c] == rest[c]);
            assert(screens[d] == rest[d]);
        }
    }
}

/// Over a rectangle, the render target's corner is the rectangle's, moved to the desktop's edge
/// where it lies beyond it, and its size is the rectangle's in single precision, or the largest
/// there is. Over nothing, the corner is beyond every other and the size below every other.
pub proof fn law_target_lies_over_the_screens(bound: ScreenRect)
    requires
        bound.wf(),
    ensures
        ({
            let target = target_over(bound);
            match bound {
                ScreenRect::Nothing => {
                    &&& target.global_offset.0 == u32::MAX
                    &&& target.global_offset.1 == u32::MAX
                    &&& target.size.0 == i32::MIN
                    &&& target.size.1 == i32::MIN
                },
                ScreenRect::Around { min_x, min_y, max_x, max_y } => {
                    &&& is_within(target.global_offset.0 as int, min_x as int, 0, u32::MAX as int)
                    &&& is_within(target.global_offset.1 as int, min_y as int, 0, u32::MAX as int)
                    &&& is_within(target.size.0 as int, single(max_x - min_x), 0, i32::MAX as int)
                    &&& is_within(target.size.1 as int, single(max_y - min_y), 0, i32::MAX as int)
                },
            }
        }),
{
    if let ScreenRect::Around { min_x, min_y, max_x, max_y } = bound {
        lemma_single_range(max_x - min_x);
        lemma_single_range(max_y - min_y);
    }
}

/// Whether a number is the wanted one, or the end of the range that is nearest to it.
pub open spec fn is_within(number: int, wanted: int, least: int, most: int) -> bool {
    &&& least <= number <= most
    &&& least <= wanted <= most ==> number == wanted
    &&& wanted < least ==> number == least
    &&& wanted > most ==> number == most
}

/// On a desktop that measures fewer pixels than need more than 24 significant bits, no screen
/// reaches beyond the rectangle around them, and a single screen fills it.
pub proof fn law_ordinary_screens_lie_in_the_rect(screens: Seq<Screen>, i: int)
    requires
        forall|i: int|
            0 <= i < screens.len() ==> {
                let s = #[trigger] screens[i];
                &&& -SINGLE_LIMIT < s.x < SINGLE_LIMIT
                &&& -SINGLE_LIMIT < s.y < SINGLE_LIMIT
                &&& 0 <= s.width && s.x + s.width < SINGLE_LIMIT
                &&& 0 <= s.height && s.y + s.height < SINGLE_LIMIT
            },
        0 <= i < screens.len(),
    ensures
        screens_rect(screens) matches ScreenRect::Around { min_x, min_y, max_x, max_y } && {
            let s = screens[i];
            &&& min_x <= s.x && s.x + s.width <= max_x
            &&& min_y <= s.y && s.y + s.height <= max_y
            &&& screens.len() == 1 ==> {
                &&& min_x == s.x && max_x == s.x + s.width
                &&& min_y == s.y && max_y == s.y + s.height
            }
        },
{
    assert forall|i: int| 0 <= i < screens.len() implies (#[trigger] screens[i]).fits() by {}
    law_screens_rect_is_bounded_by_screens(screens);
    let s = screens[i];
    law_single_exact(s.x as int);
    law_single_exact(s.y as int);
    law_single_exact(s.x + s.width);
    law_single_exact(s.y + s.height);
}

} // verus!
