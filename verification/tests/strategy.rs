//! The strategy interface: axis and intrinsic-size queries, the closed
//! strategy set, and the requested-total helper.

use toplevel_layout::frac::Frac;
use toplevel_layout::geometry::{copy_axis, Axis, AxisSize, LayoutToplevel, SizingPolicy};
use toplevel_layout::single_line::RowColToplevelLayout;
use toplevel_layout::two_line::{ToplevelLayout, TwoRowColToplevelLayout};

fn same_value(f: &Frac, num: i64, den: u64) -> bool {
    den > 0 && f.den > 0 && (f.num as i128) * (den as i128) == (num as i128) * (f.den as i128)
}

fn window(main: u32, cross: u32) -> LayoutToplevel {
    LayoutToplevel { preferred_size: AxisSize { main, cross } }
}

#[test]
fn copy_axis_returns_equal_variant() {
    assert_eq!(copy_axis(&Axis::Horizontal), Axis::Horizontal);
    assert_eq!(copy_axis(&Axis::Vertical), Axis::Vertical);
}

#[test]
fn strategies_report_axis_and_sizing_policy() {
    let two = TwoRowColToplevelLayout::new(Axis::Vertical, 8);
    assert_eq!(*two.axis(), Axis::Vertical);
    let size = two.size();
    assert_eq!(size.main, SizingPolicy::Fill);
    assert_eq!(size.cross, SizingPolicy::Shrink);
    let one = RowColToplevelLayout::new(Axis::Horizontal, 8);
    assert_eq!(*one.axis(), Axis::Horizontal);
    let size = one.size();
    assert_eq!(size.main, SizingPolicy::Fill);
    assert_eq!(size.cross, SizingPolicy::Shrink);
}

#[test]
fn requested_main_total_adds_spacing_between_items() {
    let one = RowColToplevelLayout::new(Axis::Horizontal, 5);
    assert_eq!(one.requested_main_total(&[]), 0);
    assert_eq!(one.requested_main_total(&[window(10, 1)]), 10);
    assert_eq!(one.requested_main_total(&[window(10, 1), window(20, 1), window(30, 1)]), 70);
}

#[test]
fn strategy_dispatch_selects_the_active_algorithm() {
    // On the same overflowing input the single-line strategy scales to
    // 150/400, while the two-line strategy reaches 150/200.
    let items = vec![window(100, 50), window(100, 50), window(100, 50), window(100, 50)];
    let limit = AxisSize { main: 150, cross: 200 };
    let one = ToplevelLayout::RowCol(RowColToplevelLayout::new(Axis::Horizontal, 0));
    let r = one.layout(limit, &items);
    assert_eq!(r.len(), 4);
    assert!(same_value(&r[0].size.main, 75, 2)); // 37.5
    let two = ToplevelLayout::TwoRowCol(TwoRowColToplevelLayout::new(Axis::Horizontal, 0));
    let r = two.layout(limit, &items);
    assert_eq!(r.len(), 4);
    assert!(same_value(&r[0].size.main, 75, 1));
}
