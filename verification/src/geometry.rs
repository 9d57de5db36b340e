//! Axis geometry primitives: sizes, points and rectangles expressed as
//! (main, cross) pairs so one layout algorithm serves both a horizontal and
//! a vertical panel orientation.

use vstd::prelude::*;

use crate::frac::{Frac, Rat};

verus! {

/// Which screen direction is the main axis of a layout pass.
#[derive(Clone, Copy, Debug, PartialEq, Eq, Structural)]
pub enum Axis {
    Horizontal,
    Vertical,
}

/// Returns a copy of an axis value.
pub fn copy_axis(axis: &Axis) -> (r: Axis)
    ensures
        r == *axis,
{
    match axis {
        Axis::Horizontal => Axis::Horizontal,
        Axis::Vertical => Axis::Vertical,
    }
}

/// How a strategy asks to be sized along one axis by its parent layout
/// system: take all granted space, or shrink to content.
#[derive(Clone, Copy, Debug, PartialEq, Eq, Structural)]
pub enum SizingPolicy {
    Fill,
    Shrink,
}

/// A two-dimensional extent as (main, cross), decoupled from orientation.
#[derive(Clone, Copy, Debug)]
pub struct AxisSize<T> {
    pub main: T,
    pub cross: T,
}

/// A position as (main, cross), decoupled from orientation.
#[derive(Clone, Copy, Debug)]
pub struct AxisPoint {
    pub main: Frac,
    pub cross: Frac,
}

/// A placed, concrete rectangle.
#[derive(Clone, Copy, Debug)]
pub struct AxisRectangle {
    pub origin: AxisPoint,
    pub size: AxisSize<Frac>,
}

/// One window preview's sizing request; immutable for one layout call.
#[derive(Clone, Copy, Debug)]
pub struct LayoutToplevel {
    pub preferred_size: AxisSize<u32>,
}

/// The rational-valued shadow of a placed rectangle, used by contracts.
pub ghost struct RatRect {
    pub origin_main: Rat,
    pub origin_cross: Rat,
    pub size_main: Rat,
    pub size_cross: Rat,
}

/// Reads a rectangle as four specification rationals.
pub open spec fn rect_model(r: AxisRectangle) -> RatRect {
    RatRect {
        origin_main: r.origin.main@,
        origin_cross: r.origin.cross@,
        size_main: r.size.main@,
        size_cross: r.size.cross@,
    }
}

/// Largest measurement (a preferred extent, a budget, or the spacing) the
/// engine accepts; keeps every intermediate product inside 64 bits.
pub const MAX_DIM: u32 = 65535;

/// Largest number of items in one layout call.
pub const MAX_ITEMS: usize = 1024;

/// All items are within the machine limits of the engine.
pub open spec fn items_ok(items: Seq<LayoutToplevel>) -> bool {
    &&& items.len() <= MAX_ITEMS
    &&& forall|k: int|
        0 <= k < items.len() ==> (#[trigger] items[k]).preferred_size.main <= MAX_DIM
            && items[k].preferred_size.cross <= MAX_DIM
}

} // verus!
