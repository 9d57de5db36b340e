//! Concrete layout scenarios: exact rectangle values for representative
//! inputs of both the one-line and the two-line paths.

use toplevel_layout::frac::Frac;
use toplevel_layout::geometry::{Axis, AxisSize, LayoutToplevel};
use toplevel_layout::two_line::TwoRowColToplevelLayout;

fn frac_is(f: &Frac, num: i64, den: u64) -> bool {
    den > 0 && f.den > 0 && (f.num as i128) * (den as i128) == (num as i128) * (f.den as i128)
}

fn item(main: u32, cross: u32) -> LayoutToplevel {
    LayoutToplevel { preferred_size: AxisSize { main, cross } }
}

#[test]
fn one_item_fits_at_natural_size_centered() {
    let layout = TwoRowColToplevelLayout::new(Axis::Horizontal, 0);
    let items = vec![item(100, 50)];
    let r = layout.layout(AxisSize { main: 200, cross: 100 }, &items);
    assert_eq!(r.len(), 1);
    assert!(frac_is(&r[0].size.main, 100, 1));
    assert!(frac_is(&r[0].size.cross, 50, 1));
    assert!(frac_is(&r[0].origin.main, 50, 1));
    assert!(frac_is(&r[0].origin.cross, 25, 1));
}

#[test]
fn four_items_split_two_per_line_at_three_quarters() {
    let layout = TwoRowColToplevelLayout::new(Axis::Horizontal, 0);
    let items = vec![item(100, 50), item(100, 50), item(100, 50), item(100, 50)];
    let r = layout.layout(AxisSize { main: 150, cross: 200 }, &items);
    assert_eq!(r.len(), 4);
    for rect in &r {
        assert!(frac_is(&rect.size.main, 75, 1));
        assert!(frac_is(&rect.size.cross, 75, 2)); // 37.5
    }
    // first line: centered in the upper half (cross band of height 100)
    assert!(frac_is(&r[0].origin.main, 0, 1));
    assert!(frac_is(&r[0].origin.cross, 125, 4)); // 31.25
    assert!(frac_is(&r[1].origin.main, 75, 1));
    assert!(frac_is(&r[1].origin.cross, 125, 4));
    // second line: offset by half the cross budget (100)
    assert!(frac_is(&r[2].origin.main, 0, 1));
    assert!(frac_is(&r[2].origin.cross, 525, 4)); // 131.25 = 100 + 31.25
    assert!(frac_is(&r[3].origin.main, 75, 1));
    assert!(frac_is(&r[3].origin.cross, 525, 4));
}

#[test]
fn empty_items_give_empty_output() {
    let layout = TwoRowColToplevelLayout::new(Axis::Vertical, 7);
    let items: Vec<LayoutToplevel> = Vec::new();
    let r = layout.layout(AxisSize { main: 300, cross: 200 }, &items);
    assert_eq!(r.len(), 0);
}

#[test]
fn zero_budget_collapses_item_to_zero_size() {
    let layout = TwoRowColToplevelLayout::new(Axis::Horizontal, 0);
    let items = vec![item(100, 50)];
    let r = layout.layout(AxisSize { main: 0, cross: 0 }, &items);
    assert_eq!(r.len(), 1);
    assert!(frac_is(&r[0].size.main, 0, 1));
    assert!(frac_is(&r[0].size.cross, 0, 1));
    assert!(frac_is(&r[0].origin.main, 0, 1));
    assert!(frac_is(&r[0].origin.cross, 0, 1));
}

#[test]
fn split_tie_break_prefers_larger_index() {
    // Split indices 1 and 2 both leave a worst line of 30, so both score
    // 15/30; the later index must win, putting two items on the first line.
    let layout = TwoRowColToplevelLayout::new(Axis::Horizontal, 0);
    let items = vec![item(10, 10), item(20, 10), item(10, 10)];
    let r = layout.layout(AxisSize { main: 15, cross: 100 }, &items);
    assert_eq!(r.len(), 3);
    // first line [10, 20] at scale 1/2
    assert!(frac_is(&r[0].size.main, 5, 1));
    assert!(frac_is(&r[1].size.main, 10, 1));
    assert!(frac_is(&r[0].origin.main, 0, 1));
    assert!(frac_is(&r[1].origin.main, 5, 1));
    assert!(frac_is(&r[0].origin.cross, 45, 2)); // 22.5
    // second line [10] at scale 1, centered: padding (15 - 10) / 2
    assert!(frac_is(&r[2].size.main, 10, 1));
    assert!(frac_is(&r[2].size.cross, 10, 1));
    assert!(frac_is(&r[2].origin.main, 5, 2)); // 2.5
    assert!(frac_is(&r[2].origin.cross, 70, 1)); // 50 + (50 - 10) / 2
}

#[test]
fn equal_scores_fall_back_to_one_line() {
    // One-line scale is 100/200; the two-line score is capped by the cross
    // ceiling (100/2)/100 to the same value, so one line must be kept.
    let layout = TwoRowColToplevelLayout::new(Axis::Horizontal, 0);
    let items = vec![item(100, 100), item(100, 100)];
    let r = layout.layout(AxisSize { main: 100, cross: 100 }, &items);
    assert_eq!(r.len(), 2);
    assert!(frac_is(&r[0].size.main, 50, 1));
    assert!(frac_is(&r[0].size.cross, 50, 1));
    assert!(frac_is(&r[0].origin.main, 0, 1));
    assert!(frac_is(&r[0].origin.cross, 25, 1));
    assert!(frac_is(&r[1].origin.main, 50, 1));
    assert!(frac_is(&r[1].origin.cross, 25, 1));
}

#[test]
fn zero_cross_extents_impose_no_ceiling() {
    // All cross extents are zero, so the cross ceiling does not apply and
    // the split wins on the main-axis comparison alone.
    let layout = TwoRowColToplevelLayout::new(Axis::Horizontal, 0);
    let items = vec![item(100, 0), item(100, 0)];
    let r = layout.layout(AxisSize { main: 50, cross: 100 }, &items);
    assert_eq!(r.len(), 2);
    // two lines at scale 1/2 each; one line would have given 25
    assert!(frac_is(&r[0].size.main, 50, 1));
    assert!(frac_is(&r[1].size.main, 50, 1));
    assert!(frac_is(&r[1].origin.cross, 75, 1)); // 50 + (50 - 0) / 2
}

#[test]
fn zero_main_total_means_no_scaling() {
    // A zero requested total constrains nothing: the scale is 1 and the
    // cross extent keeps its natural size.
    let layout = TwoRowColToplevelLayout::new(Axis::Horizontal, 0);
    let items = vec![item(0, 50)];
    let r = layout.layout(AxisSize { main: 100, cross: 100 }, &items);
    assert_eq!(r.len(), 1);
    assert!(frac_is(&r[0].size.main, 0, 1));
    assert!(frac_is(&r[0].size.cross, 50, 1));
    assert!(frac_is(&r[0].origin.main, 50, 1));
    assert!(frac_is(&r[0].origin.cross, 25, 1));
}

#[test]
fn spacing_counts_toward_requested_total_and_centering() {
    // Totals 10 + 10 + 5 = 25 fit in 100, so padding is 37.5 and the
    // cursor advances by item plus spacing.
    let layout = TwoRowColToplevelLayout::new(Axis::Horizontal, 5);
    let items = vec![item(10, 10), item(10, 10)];
    let r = layout.layout(AxisSize { main: 100, cross: 100 }, &items);
    assert_eq!(r.len(), 2);
    assert!(frac_is(&r[0].origin.main, 75, 2)); // 37.5
    assert!(frac_is(&r[1].origin.main, 105, 2)); // 37.5 + 10 + 5
}

#[test]
fn spacing_is_not_scaled_down() {
    // Total 210 against 105 scales items by 1/2, but the gap stays 10:
    // the second origin is 50 + 10, not 55. The low cross budget caps the
    // two-line score at the same 1/2, so one line is kept.
    let layout = TwoRowColToplevelLayout::new(Axis::Horizontal, 10);
    let items = vec![item(100, 10), item(100, 10)];
    let r = layout.layout(AxisSize { main: 105, cross: 10 }, &items);
    assert_eq!(r.len(), 2);
    assert!(frac_is(&r[0].size.main, 50, 1));
    assert!(frac_is(&r[0].origin.main, 0, 1));
    assert!(frac_is(&r[1].origin.main, 60, 1));
}
