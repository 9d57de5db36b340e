//! The general guarantees of the layout engine, stated and proved over the
//! same spec functions that the strategies' contracts use.

use vstd::prelude::*;

use crate::frac::{
    lemma_rat_le_one, lemma_rat_le_trans, lemma_rat_nonneg, rat, rat_eq, rat_le, rat_lt, rat_wf,
    Rat,
};
use crate::geometry::{items_ok, rect_model, AxisRectangle, LayoutToplevel};
use crate::single_line::{main_total, scale_of, single_line_rect, sum_main};
use crate::two_line::{
    best_split, considers_split, lemma_best_split_upto_props, lemma_split_scale_parts, max_cross,
    single_scale, split_scale, two_line_rect, two_line_scale, uses_two_lines,
};

verus! {

/// The main-extent sum of any item sequence is non-negative.
pub proof fn lemma_sum_main_nonneg(s: Seq<LayoutToplevel>)
    ensures
        sum_main(s) >= 0,
    decreases s.len(),
{
    if s.len() > 0 {
        lemma_sum_main_nonneg(s.drop_last());
    }
}

/// Every scale factor the engine forms lies between 0 and 1: the scale of
/// a line never upscales past natural size and is never negative.
pub proof fn lemma_scale_factor_bounds(limit: int, total: int)
    requires
        0 <= limit,
        0 <= total,
    ensures
        rat_wf(scale_of(limit, total)),
        rat_le(rat(0, 1), scale_of(limit, total)),
        rat_le(scale_of(limit, total), rat(1, 1)),
{
}

/// The scale emitted for any line of items (one-line, or either line of a
/// split) lies between 0 and 1.
pub proof fn lemma_line_scale_bounds(lm: int, sp: int, items: Seq<LayoutToplevel>)
    requires
        0 <= lm,
        0 <= sp,
    ensures
        rat_wf(scale_of(lm, main_total(items, sp))),
        rat_le(rat(0, 1), scale_of(lm, main_total(items, sp))),
        rat_le(scale_of(lm, main_total(items, sp)), rat(1, 1)),
{
    lemma_sum_main_nonneg(items);
    lemma_scale_factor_bounds(lm, main_total(items, sp));
}

/// The two-line score also lies between 0 and 1: the cross-axis ceiling
/// may exceed 1 on its own, but the score is capped by the best split
/// scale, which never exceeds 1.
pub proof fn lemma_two_line_scale_bounds(lm: int, cl: int, sp: int, items: Seq<LayoutToplevel>)
    requires
        items_ok(items),
        0 <= lm <= 65535,
        0 <= cl <= 65535,
        0 <= sp <= 65535,
        items.len() > 1,
    ensures
        rat_wf(two_line_scale(lm, cl, sp, items)),
        rat_le(rat(0, 1), two_line_scale(lm, cl, sp, items)),
        rat_le(two_line_scale(lm, cl, sp, items), rat(1, 1)),
{
    lemma_best_split_upto_props(lm, sp, items, items.len() - 1);
    let b = best_split(lm, sp, items);
    lemma_split_scale_parts(lm, sp, items, b);
    let best = split_scale(lm, sp, items, b);
    lemma_rat_nonneg(best);
    lemma_rat_le_one(best);
    if max_cross(items) > 0 {
        let ceiling = rat(cl, 2 * max_cross(items));
        if rat_le(ceiling, best) {
            lemma_rat_nonneg(ceiling);
            lemma_rat_le_trans(ceiling, best, rat(1, 1));
        }
    }
}

/// Idempotence: the layout is a pure function of its inputs, so any two
/// rectangle sequences that satisfy the two-line layout contract for the
/// same budget, spacing and items are identical.
pub proof fn lemma_layout_deterministic(
    lm: int,
    cl: int,
    sp: int,
    items: Seq<LayoutToplevel>,
    r1: Seq<AxisRectangle>,
    r2: Seq<AxisRectangle>,
)
    requires
        r1.len() == items.len(),
        r2.len() == items.len(),
        forall|j: int|
            0 <= j < items.len() ==> #[trigger] rect_model(r1[j]) == two_line_rect(
                lm, cl, sp, items, j),
        forall|j: int|
            0 <= j < items.len() ==> #[trigger] rect_model(r2[j]) == two_line_rect(
                lm, cl, sp, items, j),
    ensures
        r1 == r2,
{
    assert forall|j: int| 0 <= j < r1.len() implies r1[j] == r2[j] by {
        assert(rect_model(r1[j]) == rect_model(r2[j]));
        assert(r1[j].origin.main == r2[j].origin.main);
        assert(r1[j].origin.cross == r2[j].origin.cross);
        assert(r1[j].size.main == r2[j].size.main);
        assert(r1[j].size.cross == r2[j].size.cross);
    }
    assert(r1 =~= r2);
}

/// A single item never triggers the two-line path, whatever its size: a
/// split needs more than one item, and every rectangle is the one-line one.
pub proof fn lemma_one_item_single_line(lm: int, cl: int, sp: int, items: Seq<LayoutToplevel>)
    requires
        items.len() == 1,
    ensures
        !uses_two_lines(lm, cl, sp, items),
        two_line_rect(lm, cl, sp, items, 0) == single_line_rect(lm, cl, sp, items, 0),
{
}

/// The two-line layout is used if and only if the split is considered and
/// its score strictly exceeds the one-line scale; on a tie (equal scores)
/// the simpler one-line layout wins and every rectangle is the one-line
/// one.
pub proof fn lemma_strict_improvement_required(
    lm: int,
    cl: int,
    sp: int,
    items: Seq<LayoutToplevel>,
)
    ensures
        uses_two_lines(lm, cl, sp, items) <==> (considers_split(lm, sp, items) && rat_lt(
            single_scale(lm, sp, items),
            two_line_scale(lm, cl, sp, items),
        )),
        rat_eq(single_scale(lm, sp, items), two_line_scale(lm, cl, sp, items)) ==> !uses_two_lines(
            lm, cl, sp, items),
        !uses_two_lines(lm, cl, sp, items) ==> forall|j: int|
            0 <= j < items.len() ==> #[trigger] two_line_rect(lm, cl, sp, items, j)
                == single_line_rect(lm, cl, sp, items, j),
{
}

/// Split tie-break: the selected split index achieves the maximal
/// candidate scale over all split indices, and among indices of equal
/// maximal scale the largest index is the one selected.
pub proof fn lemma_split_tie_break(lm: int, sp: int, items: Seq<LayoutToplevel>, i: int)
    requires
        items_ok(items),
        0 <= lm <= 65535,
        0 <= sp <= 65535,
        items.len() > 1,
        1 <= i < items.len(),
    ensures
        1 <= best_split(lm, sp, items) < items.len(),
        rat_le(
            split_scale(lm, sp, items, i),
            split_scale(lm, sp, items, best_split(lm, sp, items)),
        ),
        rat_eq(
            split_scale(lm, sp, items, i),
            split_scale(lm, sp, items, best_split(lm, sp, items)),
        ) ==> i <= best_split(lm, sp, items),
{
    lemma_best_split_upto_props(lm, sp, items, items.len() - 1);
}

} // verus!
