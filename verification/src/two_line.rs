//! The two-line split strategy: wraps the single-line strategy and decides,
//! per call, whether stacking the items on two lines along the cross axis
//! strictly beats one line, maximizing the scale of the worst-fit line.

use vstd::prelude::*;

use crate::frac::{
    lemma_mul_le, lemma_rat_le_trans, rat, rat_le, rat_lt, rat_wf, scale_le, scale_lt, Rat,
};
use crate::geometry::{
    items_ok, rect_model, Axis, AxisRectangle, AxisSize, LayoutToplevel, RatRect, SizingPolicy,
    MAX_DIM, MAX_ITEMS,
};
use crate::single_line::{
    layout_line, lemma_main_total_bound, lemma_sum_main_bound, lemma_sum_main_split,
    lemma_sum_main_take_step, line_rect, main_total, scale_of, scale_parts, single_line_rect,
    sum_main, sum_pref_main, RowColToplevelLayout,
};

verus! {

/// The largest preferred cross-axis extent among the items; 0 when empty.
pub open spec fn max_cross(items: Seq<LayoutToplevel>) -> int
    decreases items.len(),
{
    if items.len() == 0 {
        0
    } else {
        let rest = max_cross(items.drop_last());
        let l = items.last().preferred_size.cross as int;
        if l >= rest {
            l
        } else {
            rest
        }
    }
}

/// The scale a line budget `lm` yields when the items are split before
/// index `i`: the worse (larger) of the two partition totals governs.
pub open spec fn split_scale(lm: int, sp: int, items: Seq<LayoutToplevel>, i: int) -> Rat
    recommends
        1 <= i < items.len(),
{
    let a = main_total(items.take(i), sp);
    let b = main_total(items.skip(i), sp);
    scale_of(lm, if a >= b { a } else { b })
}

/// The best split index among `1..=k`; on equal scale the later index wins.
pub open spec fn best_split_upto(lm: int, sp: int, items: Seq<LayoutToplevel>, k: int) -> int
    recommends
        1 <= k < items.len(),
    decreases k,
{
    if k <= 1 {
        1
    } else {
        let prev = best_split_upto(lm, sp, items, k - 1);
        if rat_le(split_scale(lm, sp, items, prev), split_scale(lm, sp, items, k)) {
            k
        } else {
            prev
        }
    }
}

/// The split index the strategy selects, over all of `1..items.len()`.
pub open spec fn best_split(lm: int, sp: int, items: Seq<LayoutToplevel>) -> int {
    best_split_upto(lm, sp, items, items.len() - 1)
}

/// A split is considered only when one line overflows the main budget and
/// there is more than one item.
pub open spec fn considers_split(lm: int, sp: int, items: Seq<LayoutToplevel>) -> bool {
    items.len() > 1 && main_total(items, sp) > lm
}

/// The scale of the one-line arrangement.
pub open spec fn single_scale(lm: int, sp: int, items: Seq<LayoutToplevel>) -> Rat {
    scale_of(lm, main_total(items, sp))
}

/// The score of the best two-line split: the best split scale, further
/// capped by the cross-axis ceiling `(cl / 2) / max_cross`. A zero
/// `max_cross` imposes no ceiling.
pub open spec fn two_line_scale(lm: int, cl: int, sp: int, items: Seq<LayoutToplevel>) -> Rat {
    let best = split_scale(lm, sp, items, best_split(lm, sp, items));
    if max_cross(items) > 0 {
        let ceiling = rat(cl, 2 * max_cross(items));
        if rat_le(ceiling, best) {
            ceiling
        } else {
            best
        }
    } else {
        best
    }
}

/// The two-line layout is used exactly when it is considered and its score
/// strictly exceeds the one-line scale; ties fall back to one line.
pub open spec fn uses_two_lines(lm: int, cl: int, sp: int, items: Seq<LayoutToplevel>) -> bool {
    considers_split(lm, sp, items) && rat_lt(
        single_scale(lm, sp, items),
        two_line_scale(lm, cl, sp, items),
    )
}

/// The rectangle the two-line strategy assigns to item `j`: on a split,
/// each half is laid out as a line with a halved cross budget, the second
/// line offset by half the cross budget; otherwise the one-line layout.
pub open spec fn two_line_rect(lm: int, cl: int, sp: int, items: Seq<LayoutToplevel>, j: int) -> RatRect
    recommends
        0 <= j < items.len(),
{
    if uses_two_lines(lm, cl, sp, items) {
        let i = best_split(lm, sp, items);
        if j < i {
            line_rect(lm, sp, cl, 0, items.take(i), j)
        } else {
            line_rect(lm, sp, cl, cl, items.skip(i), j - i)
        }
    } else {
        single_line_rect(lm, cl, sp, items, j)
    }
}

/// A prefix and the matching suffix of in-limit items are in limits too.
pub proof fn lemma_items_ok_take_skip(s: Seq<LayoutToplevel>, i: int)
    requires
        items_ok(s),
        0 <= i <= s.len(),
    ensures
        items_ok(s.take(i)),
        items_ok(s.skip(i)),
{
    assert forall|k: int| 0 <= k < s.take(i).len() implies (#[trigger] s.take(i)[k]).preferred_size.main
        <= MAX_DIM && s.take(i)[k].preferred_size.cross <= MAX_DIM by {
        assert(s.take(i)[k] == s[k]);
    }
    assert forall|k: int| 0 <= k < s.skip(i).len() implies (#[trigger] s.skip(i)[k]).preferred_size.main
        <= MAX_DIM && s.skip(i)[k].preferred_size.cross <= MAX_DIM by {
        assert(s.skip(i)[k] == s[i + k]);
    }
}

/// Extending a prefix by one item updates its largest cross extent.
pub proof fn lemma_max_cross_take_step(s: Seq<LayoutToplevel>, k: int)
    requires
        0 <= k < s.len(),
    ensures
        max_cross(s.take(k + 1)) == if s[k].preferred_size.cross as int >= max_cross(s.take(k)) {
            s[k].preferred_size.cross as int
        } else {
            max_cross(s.take(k))
        },
{
    assert(s.take(k + 1).drop_last() =~= s.take(k));
    assert(s.take(k + 1).last() == s[k]);
}

/// The parts of a split scale are small and well formed.
pub proof fn lemma_split_scale_parts(lm: int, sp: int, s: Seq<LayoutToplevel>, i: int)
    requires
        items_ok(s),
        0 <= lm <= 65535,
        0 <= sp <= 65535,
        1 <= i < s.len(),
    ensures
        rat_wf(split_scale(lm, sp, s, i)),
        0 <= split_scale(lm, sp, s, i).num <= 65535,
        split_scale(lm, sp, s, i).num <= split_scale(lm, sp, s, i).den,
        split_scale(lm, sp, s, i).den < 0x800_0000,
{
    lemma_items_ok_take_skip(s, i);
    lemma_main_total_bound(s.take(i), sp);
    lemma_main_total_bound(s.skip(i), sp);
}

/// The selected split index up to `k` is the last index achieving the
/// maximal split scale among `1..=k`.
pub proof fn lemma_best_split_upto_props(lm: int, sp: int, s: Seq<LayoutToplevel>, k: int)
    requires
        items_ok(s),
        0 <= lm <= 65535,
        0 <= sp <= 65535,
        1 <= k < s.len(),
    ensures
        1 <= best_split_upto(lm, sp, s, k) <= k,
        forall|i: int|
            1 <= i <= k ==> rat_le(
                #[trigger] split_scale(lm, sp, s, i),
                split_scale(lm, sp, s, best_split_upto(lm, sp, s, k)),
            ),
        forall|i: int|
            best_split_upto(lm, sp, s, k) < i <= k ==> rat_lt(
                #[trigger] split_scale(lm, sp, s, i),
                split_scale(lm, sp, s, best_split_upto(lm, sp, s, k)),
            ),
    decreases k,
{
    if k <= 1 {
    } else {
        lemma_best_split_upto_props(lm, sp, s, k - 1);
        let prev = best_split_upto(lm, sp, s, k - 1);
        let b = best_split_upto(lm, sp, s, k);
        if rat_le(split_scale(lm, sp, s, prev), split_scale(lm, sp, s, k)) {
            assert(b == k);
            assert forall|i: int| 1 <= i <= k implies rat_le(
                #[trigger] split_scale(lm, sp, s, i),
                split_scale(lm, sp, s, k),
            ) by {
                if i < k {
                    lemma_split_scale_parts(lm, sp, s, i);
                    lemma_split_scale_parts(lm, sp, s, prev);
                    lemma_split_scale_parts(lm, sp, s, k);
                    lemma_rat_le_trans(
                        split_scale(lm, sp, s, i),
                        split_scale(lm, sp, s, prev),
                        split_scale(lm, sp, s, k),
                    );
                }
            }
        } else {
            assert(b == prev);
        }
    }
}

/// Computes the largest preferred cross extent of the items.
#[verifier::loop_isolation(false)]
fn max_pref_cross(toplevels: &[LayoutToplevel]) -> (r: u32)
    requires
        items_ok(toplevels@),
    ensures
        r == max_cross(toplevels@),
        r <= MAX_DIM,
{
    let n = toplevels.len();
    let mut mc: u32 = 0;
    let mut k: usize = 0;
    while k < n
        invariant
            0 <= k <= n,
            mc == max_cross(toplevels@.take(k as int)),
            mc <= MAX_DIM,
        decreases n - k,
    {
        proof {
            lemma_max_cross_take_step(toplevels@, k as int);
        }
        let c = toplevels[k].preferred_size.cross;
        if c >= mc {
            mc = c;
        }
        k = k + 1;
    }
    proof {
        assert(toplevels@.take(n as int) =~= toplevels@);
    }
    mc
}

/// The two-line split strategy, wrapping one single-line strategy that it
/// reuses for the one-line case and for each line of a split.
pub struct TwoRowColToplevelLayout(pub RowColToplevelLayout);

impl TwoRowColToplevelLayout {
    /// Builds a two-line strategy for the given axis and item spacing.
    pub fn new(axis: Axis, spacing: u32) -> (r: Self)
        ensures
            r.0.axis == axis,
            r.0.spacing == spacing,
    {
        TwoRowColToplevelLayout(RowColToplevelLayout::new(axis, spacing))
    }

    /// The axis this strategy lays items along.
    pub fn axis(&self) -> (r: &Axis)
        ensures
            *r == self.0.axis,
    {
        &self.0.axis
    }

    /// The strategy's intrinsic sizing policy: fill the main axis, shrink
    /// to content along the cross axis.
    pub fn size(&self) -> (r: AxisSize<SizingPolicy>)
        ensures
            r.main == SizingPolicy::Fill,
            r.cross == SizingPolicy::Shrink,
    {
        AxisSize { main: SizingPolicy::Fill, cross: SizingPolicy::Shrink }
    }

    /// Lays out the items within `max_limit`: one rectangle per item, in
    /// input order, each matching `two_line_rect` — the best two-line split
    /// when it strictly beats one line, the one-line layout otherwise.
    #[verifier::loop_isolation(false)]
    pub fn layout(&self, max_limit: AxisSize<u32>, toplevels: &[LayoutToplevel]) -> (r: Vec<
        AxisRectangle,
    >)
        requires
            self.0.wf(),
            max_limit.main <= MAX_DIM,
            max_limit.cross <= MAX_DIM,
            items_ok(toplevels@),
        ensures
            r@.len() == toplevels@.len(),
            forall|j: int|
                0 <= j < toplevels@.len() ==> #[trigger] rect_model(r@[j]) == two_line_rect(
                    max_limit.main as int, max_limit.cross as int, self.0.spacing as int,
                    toplevels@, j),
    {
        let ghost s = toplevels@;
        let lm = max_limit.main;
        let cl = max_limit.cross;
        let sp = self.0.spacing;
        let n = toplevels.len();
        let t = self.0.requested_main_total(toplevels);
        if t > (lm as u64) && n > 1 {
            let mc = max_pref_cross(toplevels);
            let total_pref = sum_pref_main(toplevels, 0, n);
            proof {
                assert(s.subrange(0, n as int) =~= s);
            }
            let mut best_i: usize = 0;
            let mut bn: u64 = 1;
            let mut bd: u64 = 1;
            let mut p: u64 = 0;
            let mut i: usize = 1;
            while i < n
                invariant
                    1 <= i <= n,
                    p == sum_main(s.take(i as int - 1)),
                    p <= (i - 1) * 65535,
                    i == 1 ==> best_i == 0,
                    i > 1 ==> {
                        &&& 1 <= best_i <= i - 1
                        &&& best_i == best_split_upto(lm as int, sp as int, s, i as int - 1)
                        &&& rat(bn as int, bd as int) == split_scale(
                            lm as int, sp as int, s, best_i as int)
                        &&& 0 < bd < 0x800_0000
                        &&& bn <= 65535
                    },
                decreases n - i,
            {
                proof {
                    lemma_sum_main_take_step(s, i as int - 1);
                }
                p = p + (toplevels[i - 1].preferred_size.main as u64);
                proof {
                    lemma_items_ok_take_skip(s, i as int);
                    lemma_sum_main_split(s, i as int);
                    lemma_sum_main_bound(s.skip(i as int));
                    lemma_main_total_bound(s.take(i as int), sp as int);
                    lemma_main_total_bound(s.skip(i as int), sp as int);
                    lemma_mul_le(sp as int, i as int - 1, 65535, 1023);
                    lemma_mul_le(sp as int, n as int - i as int - 1, 65535, 1023);
                }
                let top: u64 = p + (sp as u64) * ((i - 1) as u64);
                let bottom: u64 = (total_pref - p) + (sp as u64) * ((n - i - 1) as u64);
                let worst: u64 = if top >= bottom {
                    top
                } else {
                    bottom
                };
                proof {
                    assert(top == main_total(s.take(i as int), sp as int));
                    assert(bottom == main_total(s.skip(i as int), sp as int));
                }
                let (cn, cd) = scale_parts(lm, worst);
                proof {
                    assert(rat(cn as int, cd as int) == split_scale(lm as int, sp as int, s,
                        i as int));
                }
                if best_i == 0 {
                    best_i = i;
                    bn = cn;
                    bd = cd;
                } else {
                    if scale_le(bn, bd, cn, cd) {
                        best_i = i;
                        bn = cn;
                        bd = cd;
                    }
                }
                proof {
                    assert(best_i == best_split_upto(lm as int, sp as int, s, i as int));
                }
                i = i + 1;
            }
            let mut tn: u64 = bn;
            let mut td: u64 = bd;
            if mc > 0 {
                if scale_le(cl as u64, (2 * mc) as u64, bn, bd) {
                    tn = cl as u64;
                    td = (2 * mc) as u64;
                }
            }
            proof {
                assert(rat(tn as int, td as int) == two_line_scale(lm as int, cl as int,
                    sp as int, s));
            }
            let (sn, sd) = scale_parts(lm, t);
            if scale_lt(sn, sd, tn, td) {
                let split_point = best_i;
                proof {
                    assert(uses_two_lines(lm as int, cl as int, sp as int, s));
                }
                let mut out = layout_line(lm, sp, cl, 0, toplevels, 0, split_point);
                let second = layout_line(lm, sp, cl, cl, toplevels, split_point, n);
                proof {
                    assert(s.subrange(0, split_point as int) =~= s.take(split_point as int));
                    assert(s.subrange(split_point as int, n as int) =~= s.skip(
                        split_point as int));
                }
                let m = second.len();
                let mut k2: usize = 0;
                while k2 < m
                    invariant
                        0 <= k2 <= m,
                        out@.len() == split_point + k2,
                        forall|j: int|
                            0 <= j < split_point ==> #[trigger] rect_model(out@[j]) == line_rect(
                                lm as int, sp as int, cl as int, 0,
                                s.take(split_point as int), j),
                        forall|j: int|
                            split_point <= j < split_point + k2 ==> #[trigger] rect_model(out@[j])
                                == line_rect(lm as int, sp as int, cl as int, cl as int,
                                    s.skip(split_point as int), j - split_point),
                    decreases m - k2,
                {
                    out.push(second[k2]);
                    k2 = k2 + 1;
                }
                proof {
                    assert(best_split(lm as int, sp as int, s) == split_point);
                }
                return out;
            }
            proof {
                assert(!uses_two_lines(lm as int, cl as int, sp as int, s));
            }
        } else {
            proof {
                assert(!considers_split(lm as int, sp as int, s));
            }
        }
        proof {
            assert(!uses_two_lines(lm as int, cl as int, sp as int, s));
            assert(s.subrange(0, n as int) =~= s);
        }
        layout_line(lm, sp, 2 * cl, 0, toplevels, 0, n)
    }
}

/// The closed set of layout strategies, dispatched through one interface;
/// the surrounding system never inspects which strategy is active.
pub enum ToplevelLayout {
    RowCol(RowColToplevelLayout),
    TwoRowCol(TwoRowColToplevelLayout),
}

impl ToplevelLayout {
    /// The machine limit under which the active strategy computes exactly.
    pub open spec fn wf(self) -> bool {
        match self {
            ToplevelLayout::RowCol(l) => l.wf(),
            ToplevelLayout::TwoRowCol(l) => l.0.wf(),
        }
    }

    /// The rectangle the active strategy assigns to item `j`.
    pub open spec fn strategy_rect(
        self,
        lm: int,
        cl: int,
        items: Seq<LayoutToplevel>,
        j: int,
    ) -> RatRect {
        match self {
            ToplevelLayout::RowCol(l) => single_line_rect(lm, cl, l.spacing as int, items, j),
            ToplevelLayout::TwoRowCol(l) => two_line_rect(lm, cl, l.0.spacing as int, items, j),
        }
    }

    /// The axis the active strategy lays items along.
    pub fn axis(&self) -> (r: &Axis)
        ensures
            *r == match self {
                ToplevelLayout::RowCol(l) => l.axis,
                ToplevelLayout::TwoRowCol(l) => l.0.axis,
            },
    {
        match self {
            ToplevelLayout::RowCol(l) => l.axis(),
            ToplevelLayout::TwoRowCol(l) => l.axis(),
        }
    }

    /// The active strategy's intrinsic sizing policy.
    pub fn size(&self) -> (r: AxisSize<SizingPolicy>)
        ensures
            r.main == SizingPolicy::Fill,
            r.cross == SizingPolicy::Shrink,
    {
        match self {
            ToplevelLayout::RowCol(l) => l.size(),
            ToplevelLayout::TwoRowCol(l) => l.size(),
        }
    }

    /// Lays out the items with the active strategy: one rectangle per item,
    /// in input order, each matching `strategy_rect`.
    pub fn layout(&self, max_limit: AxisSize<u32>, toplevels: &[LayoutToplevel]) -> (r: Vec<
        AxisRectangle,
    >)
        requires
            self.wf(),
            max_limit.main <= MAX_DIM,
            max_limit.cross <= MAX_DIM,
            items_ok(toplevels@),
        ensures
            r@.len() == toplevels@.len(),
            forall|j: int|
                0 <= j < toplevels@.len() ==> #[trigger] rect_model(r@[j]) == self.strategy_rect(
                    max_limit.main as int, max_limit.cross as int, toplevels@, j),
    {
        match self {
            ToplevelLayout::RowCol(l) => l.layout(max_limit, toplevels),
            ToplevelLayout::TwoRowCol(l) => l.layout(max_limit, toplevels),
        }
    }
}

} // verus!
