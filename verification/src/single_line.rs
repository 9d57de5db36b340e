//! The single-line packing strategy: all items in one line along the main
//! axis, scaled uniformly by `min(limit / requested_total, 1)`, centered
//! when the line does not fill the main-axis budget.

use vstd::prelude::*;

use crate::frac::{lemma_mul_le, rat, Frac, Rat};
use crate::geometry::{
    items_ok, rect_model, Axis, AxisPoint, AxisRectangle, AxisSize, LayoutToplevel, RatRect,
    SizingPolicy, MAX_DIM, MAX_ITEMS,
};

verus! {

/// Sum of the preferred main-axis extents of a sequence of items.
pub open spec fn sum_main(items: Seq<LayoutToplevel>) -> int
    decreases items.len(),
{
    if items.len() == 0 {
        0
    } else {
        sum_main(items.drop_last()) + items.last().preferred_size.main
    }
}

/// The requested main-axis total of one line: the preferred extents plus
/// the fixed spacing between consecutive items. Zero for an empty line.
pub open spec fn main_total(items: Seq<LayoutToplevel>, spacing: int) -> int {
    if items.len() == 0 {
        0
    } else {
        sum_main(items) + spacing * (items.len() - 1)
    }
}

/// The uniform scale factor of a line: `min(limit / total, 1)`. A zero
/// total constrains nothing, so the scale is 1; items are never upscaled
/// past their natural size.
pub open spec fn scale_of(limit: int, total: int) -> Rat {
    if total <= 0 {
        rat(1, 1)
    } else if limit < total {
        rat(limit, total)
    } else {
        rat(total, total)
    }
}

/// The rectangle the line layout assigns to item `j` of `items`, as exact
/// rationals. `lm` is the main-axis budget and `sp` the spacing; to allow
/// half-unit cross budgets, `cl2` is twice the cross-axis budget of the
/// line and `co2` twice its cross-axis offset.
///
/// The item is scaled uniformly on both axes, placed after the centering
/// padding and its predecessors along the main axis, and centered within
/// the line's cross budget.
pub open spec fn line_rect(
    lm: int,
    sp: int,
    cl2: int,
    co2: int,
    items: Seq<LayoutToplevel>,
    j: int,
) -> RatRect
    recommends
        0 <= j < items.len(),
{
    let t = main_total(items, sp);
    let s = scale_of(lm, t);
    let pm = items[j].preferred_size.main as int;
    let pc = items[j].preferred_size.cross as int;
    let pad2 = if lm - t > 0 { lm - t } else { 0 };
    RatRect {
        origin_main: rat(pad2 * s.den + 2 * sum_main(items.take(j)) * s.num + 2 * j * sp * s.den,
            2 * s.den),
        origin_cross: rat((2 * co2 + cl2) * s.den - 2 * pc * s.num, 4 * s.den),
        size_main: rat(pm * s.num, s.den),
        size_cross: rat(pc * s.num, s.den),
    }
}

/// The rectangle the single-line strategy gives item `j` when granted the
/// full budget (`lm`, `cl`).
pub open spec fn single_line_rect(lm: int, cl: int, sp: int, items: Seq<LayoutToplevel>, j: int) -> RatRect {
    line_rect(lm, sp, 2 * cl, 0, items, j)
}

/// Extending a prefix by one item adds that item's main extent to its sum.
pub proof fn lemma_sum_main_take_step(s: Seq<LayoutToplevel>, k: int)
    requires
        0 <= k < s.len(),
    ensures
        sum_main(s.take(k + 1)) == sum_main(s.take(k)) + s[k].preferred_size.main,
{
    assert(s.take(k + 1).drop_last() =~= s.take(k));
    assert(s.take(k + 1).last() == s[k]);
}

/// The main-extent sum splits over a prefix and the matching suffix.
pub proof fn lemma_sum_main_split(s: Seq<LayoutToplevel>, i: int)
    requires
        0 <= i <= s.len(),
    ensures
        sum_main(s) == sum_main(s.take(i)) + sum_main(s.skip(i)),
    decreases s.len(),
{
    if i == s.len() {
        assert(s.take(i) =~= s);
        assert(s.skip(i) =~= Seq::<LayoutToplevel>::empty());
    } else {
        lemma_sum_main_split(s.drop_last(), i);
        assert(s.drop_last().take(i) =~= s.take(i));
        assert(s.skip(i).drop_last() =~= s.drop_last().skip(i));
        assert(s.skip(i).last() == s.last());
    }
}

/// The main-extent sum of in-limit items is non-negative and bounded.
pub proof fn lemma_sum_main_bound(s: Seq<LayoutToplevel>)
    requires
        forall|k: int| 0 <= k < s.len() ==> (#[trigger] s[k]).preferred_size.main <= MAX_DIM,
    ensures
        0 <= sum_main(s) <= s.len() * 65535,
    decreases s.len(),
{
    if s.len() > 0 {
        lemma_sum_main_bound(s.drop_last());
        assert(s.last() == s[s.len() - 1]);
    }
}

/// The requested total of an in-limit line stays well under `2^27`.
pub proof fn lemma_main_total_bound(s: Seq<LayoutToplevel>, sp: int)
    requires
        items_ok(s),
        0 <= sp <= 65535,
    ensures
        0 <= main_total(s, sp) < 0x800_0000,
{
    lemma_sum_main_bound(s);
    if s.len() > 0 {
        lemma_mul_le(sp, s.len() - 1, 65535, 1023);
    }
}

/// Computes the scale factor of a line as a numerator/denominator pair.
pub(crate) fn scale_parts(limit: u32, total: u64) -> (r: (u64, u64))
    requires
        limit <= MAX_DIM,
        total < 0x800_0000,
    ensures
        rat(r.0 as int, r.1 as int) == scale_of(limit as int, total as int),
        0 < r.1 < 0x800_0000,
        r.0 <= 65535,
        r.0 <= r.1,
{
    if total == 0 {
        (1, 1)
    } else if (limit as u64) < total {
        (limit as u64, total)
    } else {
        (total, total)
    }
}

/// Sums the preferred main extents of `items[start..end]`.
#[verifier::loop_isolation(false)]
pub(crate) fn sum_pref_main(items: &[LayoutToplevel], start: usize, end: usize) -> (r: u64)
    requires
        start <= end <= items@.len(),
        end - start <= MAX_ITEMS,
        forall|k: int|
            start <= k < end ==> (#[trigger] items@[k]).preferred_size.main <= MAX_DIM,
    ensures
        r == sum_main(items@.subrange(start as int, end as int)),
        r <= (end - start) * 65535,
{
    let ghost sub = items@.subrange(start as int, end as int);
    let mut summ: u64 = 0;
    let mut k: usize = start;
    while k < end
        invariant
            start <= k <= end,
            summ == sum_main(sub.take(k as int - start as int)),
            summ <= (k - start) * 65535,
        decreases end - k,
    {
        proof {
            lemma_sum_main_take_step(sub, k as int - start as int);
            assert(sub[k as int - start as int] == items@[k as int]);
        }
        summ = summ + (items[k].preferred_size.main as u64);
        k = k + 1;
    }
    proof {
        assert(sub.take(end as int - start as int) =~= sub);
    }
    summ
}

/// Lays out `items[start..end]` as one line: scale, centering padding, and
/// one rectangle per item in input order, each matching `line_rect`.
#[verifier::loop_isolation(false)]
pub(crate) fn layout_line(
    lm: u32,
    sp: u32,
    cl2: u32,
    co2: u32,
    items: &[LayoutToplevel],
    start: usize,
    end: usize,
) -> (r: Vec<AxisRectangle>)
    requires
        start <= end <= items@.len(),
        end - start <= MAX_ITEMS,
        lm <= MAX_DIM,
        sp <= MAX_DIM,
        cl2 <= 2 * MAX_DIM,
        co2 <= 2 * MAX_DIM,
        forall|k: int|
            start <= k < end ==> (#[trigger] items@[k]).preferred_size.main <= MAX_DIM
                && items@[k].preferred_size.cross <= MAX_DIM,
    ensures
        r@.len() == end - start,
        forall|j: int|
            0 <= j < end - start ==> #[trigger] rect_model(r@[j]) == line_rect(
                lm as int, sp as int, cl2 as int, co2 as int,
                items@.subrange(start as int, end as int), j),
{
    let ghost sub = items@.subrange(start as int, end as int);
    let mut r: Vec<AxisRectangle> = Vec::new();
    if end == start {
        return r;
    }
    let count = end - start;
    let summ = sum_pref_main(items, start, end);
    proof {
        lemma_mul_le(sp as int, count as int - 1, 65535, 1023);
    }
    let t: u64 = summ + (sp as u64) * ((count - 1) as u64);
    proof {
        assert(t == main_total(sub, sp as int));
    }
    let (sn, sd) = scale_parts(lm, t);
    let pad2: u64 = if (lm as u64) > t {
        (lm as u64) - t
    } else {
        0
    };
    let mut p: u64 = 0;
    let mut idx: usize = start;
    while idx < end
        invariant
            start <= idx <= end,
            r@.len() == idx - start,
            p == sum_main(sub.take(idx as int - start as int)),
            p <= (idx - start) * 65535,
            forall|j: int|
                0 <= j < idx - start ==> #[trigger] rect_model(r@[j]) == line_rect(
                    lm as int, sp as int, cl2 as int, co2 as int, sub, j),
        decreases end - idx,
    {
        let ghost j = idx as int - start as int;
        proof {
            assert(sub[j] == items@[idx as int]);
        }
        let pm: u64 = items[idx].preferred_size.main as u64;
        let pc: u64 = items[idx].preferred_size.cross as u64;
        let jj: u64 = (idx - start) as u64;
        proof {
            lemma_mul_le(pm as int, sn as int, 65535, 65535);
            lemma_mul_le(pc as int, sn as int, 65535, 65535);
            lemma_mul_le(pad2 as int, sd as int, 65535, 0x800_0000);
            lemma_mul_le(2 * (p as int), sn as int, 0x1000_0000, 65535);
            lemma_mul_le(2 * (jj as int), sp as int, 2048, 65535);
            lemma_mul_le(2 * (jj as int) * (sp as int), sd as int, 0x800_0000, 0x800_0000);
            lemma_mul_le(2 * (co2 as int) + cl2 as int, sd as int, 0x6_0000, 0x800_0000);
            lemma_mul_le(2 * (pc as int), sn as int, 0x2_0000, 65535);
        }
        let om_num: u64 = pad2 * sd + 2 * p * sn + 2 * jj * (sp as u64) * sd;
        let oc_base: u64 = ((2 * co2 + cl2) as u64) * sd;
        let oc_less: u64 = 2 * pc * sn;
        let rect = AxisRectangle {
            origin: AxisPoint {
                main: Frac { num: om_num as i64, den: 2 * sd },
                cross: Frac { num: (oc_base as i64) - (oc_less as i64), den: 4 * sd },
            },
            size: AxisSize {
                main: Frac { num: (pm * sn) as i64, den: sd },
                cross: Frac { num: (pc * sn) as i64, den: sd },
            },
        };
        r.push(rect);
        proof {
            assert(rect_model(rect) == line_rect(
                lm as int, sp as int, cl2 as int, co2 as int, sub, j));
            lemma_sum_main_take_step(sub, j);
        }
        p = p + pm;
        idx = idx + 1;
    }
    r
}

/// The single-line packing strategy, fixed to one axis and one spacing.
pub struct RowColToplevelLayout {
    pub axis: Axis,
    pub spacing: u32,
}

impl RowColToplevelLayout {
    /// The machine limit under which the strategy computes exactly.
    pub open spec fn wf(self) -> bool {
        self.spacing <= MAX_DIM
    }

    /// Builds a single-line strategy for the given axis and item spacing.
    pub fn new(axis: Axis, spacing: u32) -> (r: Self)
        ensures
            r.axis == axis,
            r.spacing == spacing,
    {
        RowColToplevelLayout { axis, spacing }
    }

    /// The main-axis total the items ask for, spacing included.
    pub fn requested_main_total(&self, toplevels: &[LayoutToplevel]) -> (r: u64)
        requires
            self.wf(),
            items_ok(toplevels@),
        ensures
            r == main_total(toplevels@, self.spacing as int),
            r < 0x800_0000,
    {
        let n = toplevels.len();
        let summ = sum_pref_main(toplevels, 0, n);
        proof {
            assert(toplevels@.subrange(0, n as int) =~= toplevels@);
        }
        if n == 0 {
            0
        } else {
            proof {
                lemma_mul_le(self.spacing as int, n as int - 1, 65535, 1023);
            }
            summ + (self.spacing as u64) * ((n - 1) as u64)
        }
    }

    /// The axis this strategy lays items along.
    pub fn axis(&self) -> (r: &Axis)
        ensures
            *r == self.axis,
    {
        &self.axis
    }

    /// The strategy's intrinsic sizing policy: fill the main axis, shrink
    /// to content along the cross axis.
    pub fn size(&self) -> (r: AxisSize<SizingPolicy>)
        ensures
            r.main == SizingPolicy::Fill,
            r.cross == SizingPolicy::Shrink,
    {
        AxisSize { main: SizingPolicy::Fill, cross: SizingPolicy::Shrink }
    }

    /// Lays out all items in one line within `max_limit`: one rectangle per
    /// item, in input order, each matching `single_line_rect`.
    pub fn layout(&self, max_limit: AxisSize<u32>, toplevels: &[LayoutToplevel]) -> (r: Vec<
        AxisRectangle,
    >)
        requires
            self.wf(),
            max_limit.main <= MAX_DIM,
            max_limit.cross <= MAX_DIM,
            items_ok(toplevels@),
        ensures
            r@.len() == toplevels@.len(),
            forall|j: int|
                0 <= j < toplevels@.len() ==> #[trigger] rect_model(r@[j]) == single_line_rect(
                    max_limit.main as int, max_limit.cross as int, self.spacing as int,
                    toplevels@, j),
    {
        let n = toplevels.len();
        proof {
            assert(toplevels@.subrange(0, n as int) =~= toplevels@);
        }
        layout_line(max_limit.main, self.spacing, 2 * max_limit.cross, 0, toplevels, 0, n)
    }
}

} // verus!
