//! Concrete checks of the engine's general guarantees: scale bounds,
//! positional correspondence, idempotence, and the single-item rule.

use toplevel_layout::frac::Frac;
use toplevel_layout::geometry::{Axis, AxisSize, LayoutToplevel};
use toplevel_layout::two_line::TwoRowColToplevelLayout;

fn value_matches(f: &Frac, num: i64, den: u64) -> bool {
    den > 0 && f.den > 0 && (f.num as i128) * (den as i128) == (num as i128) * (f.den as i128)
}

fn value_at_most(f: &Frac, num: i64, den: u64) -> bool {
    den > 0 && f.den > 0 && (f.num as i128) * (den as i128) <= (num as i128) * (f.den as i128)
}

fn preview(main: u32, cross: u32) -> LayoutToplevel {
    LayoutToplevel { preferred_size: AxisSize { main, cross } }
}

#[test]
fn sizes_stay_between_zero_and_preferred() {
    // Scale factors lie in [0, 1]: emitted sizes never exceed the
    // preferred sizes and are never negative.
    let layout = TwoRowColToplevelLayout::new(Axis::Horizontal, 3);
    let items = vec![preview(300, 200), preview(40, 10), preview(500, 450), preview(120, 80)];
    let r = layout.layout(AxisSize { main: 250, cross: 400 }, &items);
    assert_eq!(r.len(), 4);
    for (rect, it) in r.iter().zip(items.iter()) {
        assert!(rect.size.main.num >= 0);
        assert!(rect.size.cross.num >= 0);
        assert!(value_at_most(&rect.size.main, it.preferred_size.main as i64, 1));
        assert!(value_at_most(&rect.size.cross, it.preferred_size.cross as i64, 1));
    }
}

#[test]
fn one_rectangle_per_item_in_input_order() {
    // Items fit at natural size, so each rectangle's size identifies its
    // item: the outputs stand in input order, one per item.
    let layout = TwoRowColToplevelLayout::new(Axis::Horizontal, 0);
    let items = vec![preview(10, 5), preview(20, 5), preview(30, 5)];
    let r = layout.layout(AxisSize { main: 100, cross: 50 }, &items);
    assert_eq!(r.len(), items.len());
    assert!(value_matches(&r[0].size.main, 10, 1));
    assert!(value_matches(&r[1].size.main, 20, 1));
    assert!(value_matches(&r[2].size.main, 30, 1));
    // the main-axis cursor is increasing
    assert!(value_matches(&r[0].origin.main, 20, 1));
    assert!(value_matches(&r[1].origin.main, 30, 1));
    assert!(value_matches(&r[2].origin.main, 50, 1));
}

#[test]
fn identical_inputs_give_identical_rectangles() {
    let layout = TwoRowColToplevelLayout::new(Axis::Vertical, 4);
    let items = vec![preview(120, 90), preview(200, 150), preview(64, 64), preview(300, 200)];
    let limit = AxisSize { main: 180, cross: 260 };
    let r1 = layout.layout(limit, &items);
    let r2 = layout.layout(limit, &items);
    assert_eq!(r1.len(), r2.len());
    for (a, b) in r1.iter().zip(r2.iter()) {
        assert_eq!(a.origin.main.num, b.origin.main.num);
        assert_eq!(a.origin.main.den, b.origin.main.den);
        assert_eq!(a.origin.cross.num, b.origin.cross.num);
        assert_eq!(a.origin.cross.den, b.origin.cross.den);
        assert_eq!(a.size.main.num, b.size.main.num);
        assert_eq!(a.size.main.den, b.size.main.den);
        assert_eq!(a.size.cross.num, b.size.cross.num);
        assert_eq!(a.size.cross.den, b.size.cross.den);
    }
}

#[test]
fn one_item_never_splits_regardless_of_size() {
    // A single oversized item keeps the one-line path: it is scaled to the
    // main budget and centered within the full cross budget, not within a
    // halved one.
    let layout = TwoRowColToplevelLayout::new(Axis::Horizontal, 0);
    let items = vec![preview(1000, 100)];
    let r = layout.layout(AxisSize { main: 10, cross: 1000 }, &items);
    assert_eq!(r.len(), 1);
    assert!(value_matches(&r[0].size.main, 10, 1));
    assert!(value_matches(&r[0].size.cross, 1, 1));
    assert!(value_matches(&r[0].origin.main, 0, 1));
    // centered in the full 1000, not offset into a half band
    assert!(value_matches(&r[0].origin.cross, 999, 2));
}
