use vstd::prelude::*;
use vstd::math::{max, min};
use crate::constraints::{
    absorber, all_desired, base_len, below_desired, class_desired_prefix, consumed_before, desired,
    first_min_from, lemma_absorber_in_range, lemma_desired_bounds, lemma_len_prefix_bounds,
    lemma_slot_len_le_total, lemma_slot_len_nonneg, len_prefix_sum, prio, slot_len, slots_wf,
    SlotConstraint,
};
use crate::geometry::{Direction, Region};

verus! {

/// The parent size along the split axis.
pub open spec fn axis_total(rect: Region, dir: Direction) -> int {
    match dir {
        Direction::Vertical => rect.height as int,
        Direction::Horizontal => rect.width as int,
    }
}

/// The `i`-th child rectangle of a split: children are laid out in slot
/// order along the split axis, each starting where the previous one ended,
/// and span the parent fully across the other axis.
pub open spec fn spec_child_region(
    rect: Region,
    dir: Direction,
    cs: Seq<SlotConstraint>,
    hints: Seq<usize>,
    i: int,
) -> Region {
    let total = axis_total(rect, dir);
    let off = len_prefix_sum(cs, hints, total, i);
    let l = slot_len(cs, hints, total, i);
    match dir {
        Direction::Vertical => Region {
            x: rect.x,
            y: (rect.y + off) as u16,
            width: rect.width,
            height: l as u16,
        },
        Direction::Horizontal => Region {
            x: (rect.x + off) as u16,
            y: rect.y,
            width: l as u16,
            height: rect.height,
        },
    }
}

/// The full result of a split: one region per slot.
pub open spec fn spec_split(
    rect: Region,
    dir: Direction,
    cs: Seq<SlotConstraint>,
    hints: Seq<usize>,
) -> Seq<Region> {
    Seq::new(cs.len(), |i: int| spec_child_region(rect, dir, cs, hints, i))
}

/// What it means for regions to tile a parent rectangle along one axis:
/// they sit side by side in order with no gap and no overlap, the first at
/// the parent's near edge and the last ending at its far edge, and each
/// spans the parent fully across the other axis.
pub open spec fn tiles(rect: Region, dir: Direction, rs: Seq<Region>) -> bool {
    &&& rs.len() >= 1
    &&& match dir {
        Direction::Vertical => {
            &&& forall|i: int|
                0 <= i < rs.len() ==> #[trigger] rs[i].x == rect.x && rs[i].width == rect.width
            &&& rs[0].y == rect.y
            &&& forall|i: int|
                0 <= i < rs.len() - 1 ==> #[trigger] rs[i + 1].y == rs[i].y + rs[i].height
            &&& rs[rs.len() - 1].y + rs[rs.len() - 1].height == rect.y + rect.height
        },
        Direction::Horizontal => {
            &&& forall|i: int|
                0 <= i < rs.len() ==> #[trigger] rs[i].y == rect.y && rs[i].height == rect.height
            &&& rs[0].x == rect.x
            &&& forall|i: int|
                0 <= i < rs.len() - 1 ==> #[trigger] rs[i + 1].x == rs[i].x + rs[i].width
            &&& rs[rs.len() - 1].x + rs[rs.len() - 1].width == rect.x + rect.width
        },
    }
}

/// The tiling invariant at the region level: for every parent rectangle and
/// well-formed constraint list, the resolved regions exactly cover the
/// parent along the split axis — no gaps, no overlaps, nothing dropped.
pub proof fn lemma_split_tiles(
    rect: Region,
    dir: Direction,
    cs: Seq<SlotConstraint>,
    hints: Seq<usize>,
)
    requires
        cs.len() >= 1,
        hints.len() == cs.len(),
        slots_wf(cs),
        rect.x + rect.width <= u16::MAX,
        rect.y + rect.height <= u16::MAX,
    ensures
        spec_split(rect, dir, cs, hints).len() == cs.len(),
        tiles(rect, dir, spec_split(rect, dir, cs, hints)),
{
    let total = axis_total(rect, dir);
    let n = cs.len() as int;
    let rs = spec_split(rect, dir, cs, hints);
    crate::constraints::lemma_axis_tiling(cs, hints, total);
    assert forall|i: int| 0 <= i < n implies 0 <= len_prefix_sum(cs, hints, total, i) <= total && 0
        <= slot_len(cs, hints, total, i) <= total && len_prefix_sum(cs, hints, total, i) + slot_len(
        cs,
        hints,
        total,
        i,
    ) <= total by {
        lemma_len_prefix_bounds(cs, hints, total, i);
        lemma_len_prefix_bounds(cs, hints, total, i + 1);
    }
    assert(len_prefix_sum(cs, hints, total, n) == total);
    assert(len_prefix_sum(cs, hints, total, n) == len_prefix_sum(cs, hints, total, n - 1)
        + slot_len(cs, hints, total, n - 1));
}

/// Every child region of a split lies inside its parent.
pub proof fn lemma_split_in_parent(
    rect: Region,
    dir: Direction,
    cs: Seq<SlotConstraint>,
    hints: Seq<usize>,
)
    requires
        cs.len() >= 1,
        hints.len() == cs.len(),
        slots_wf(cs),
        rect.x + rect.width <= u16::MAX,
        rect.y + rect.height <= u16::MAX,
    ensures
        forall|i: int|
            0 <= i < cs.len() ==> {
                let c = #[trigger] spec_split(rect, dir, cs, hints)[i];
                &&& rect.x <= c.x
                &&& rect.y <= c.y
                &&& c.x + c.width <= rect.x + rect.width
                &&& c.y + c.height <= rect.y + rect.height
            },
{
    let total = axis_total(rect, dir);
    assert forall|i: int| 0 <= i < cs.len() implies {
        let c = #[trigger] spec_split(rect, dir, cs, hints)[i];
        &&& rect.x <= c.x
        &&& rect.y <= c.y
        &&& c.x + c.width <= rect.x + rect.width
        &&& c.y + c.height <= rect.y + rect.height
    } by {
        lemma_len_prefix_bounds(cs, hints, total, i);
        lemma_len_prefix_bounds(cs, hints, total, i + 1);
    }
}

fn min_u16(a: u16, b: u16) -> (r: u16)
    ensures
        r as int == min(a as int, b as int),
{
    if a < b {
        a
    } else {
        b
    }
}

/// The length slot `c` asks for, clamped to the parent size.
pub fn desired_of(c: &SlotConstraint, total: u16, hint: usize) -> (r: u16)
    requires
        crate::constraints::slot_wf(*c),
    ensures
        r as int == desired(*c, total as int, hint as int),
{
    match c {
        SlotConstraint::Fixed(n) => min_u16(*n, total),
        SlotConstraint::Min(n) => min_u16(*n, total),
        SlotConstraint::Percentage(p) => {
            proof {
                assert((total as int) * (*p as int) <= 65535 * 65535) by (nonlinear_arith)
                    requires
                        total as int <= 65535,
                        *p as int <= 65535,
                        total as int >= 0,
                        *p as int >= 0,
                ;
            }
            let scaled: u64 = (total as u64) * (*p as u64) / 100;
            if scaled > total as u64 {
                total
            } else {
                scaled as u16
            }
        },
        SlotConstraint::ContentDriven { group, chrome } => {
            let g = *group as usize;
            let q = hint / g;
            if q >= total as usize {
                total
            } else {
                let rounded: u32 = if hint % g == 0 {
                    q as u32
                } else {
                    q as u32 + 1
                };
                let val: u32 = rounded + *chrome as u32;
                if val > total as u32 {
                    total
                } else {
                    val as u16
                }
            }
        },
    }
}

fn prio_of(c: &SlotConstraint) -> (r: u8)
    ensures
        r as int == prio(*c),
{
    match c {
        SlotConstraint::Fixed(_) => 0,
        SlotConstraint::ContentDriven { .. } => 0,
        SlotConstraint::Percentage(_) => 1,
        SlotConstraint::Min(_) => 2,
    }
}

/// The slot that absorbs space no slot asked for: the first `Min` slot, or
/// the last slot when the split has none.
fn absorber_index(cs: &Vec<SlotConstraint>) -> (r: usize)
    requires
        cs@.len() >= 1,
    ensures
        r as int == absorber(cs@),
        r < cs@.len(),
{
    let n = cs.len();
    let mut i: usize = 0;
    while i < n
        invariant
            0 <= i <= n,
            n == cs@.len(),
            n >= 1,
            first_min_from(cs@, 0) == first_min_from(cs@, i as int),
        decreases n - i,
    {
        if matches!(cs[i], SlotConstraint::Min(_)) {
            proof {
                lemma_absorber_in_range(cs@);
            }
            return i;
        }
        i = i + 1;
    }
    n - 1
}

/// Resolves the length of every slot of a split along one axis of size
/// `total`: serves `Fixed` and `ContentDriven` slots first, then
/// `Percentage`, then `Min`, each getting its desired length cut down to the
/// remaining budget, and hands whatever is left to the absorber slot.
pub fn solve_lengths(total: u16, cs: &Vec<SlotConstraint>, hints: &Vec<usize>) -> (r: Vec<u16>)
    requires
        cs@.len() >= 1,
        hints@.len() == cs@.len(),
        slots_wf(cs@),
    ensures
        r@.len() == cs@.len(),
        forall|i: int|
            0 <= i < cs@.len() ==> #[trigger] r@[i] as int == slot_len(
                cs@,
                hints@,
                total as int,
                i,
            ),
{
    let ghost t = total as int;
    let n = cs.len();
    let mut lens: Vec<u16> = Vec::new();
    let mut k: usize = 0;
    while k < n
        invariant
            0 <= k <= n,
            lens@.len() == k,
            forall|j: int| 0 <= j < k ==> #[trigger] lens@[j] == 0u16,
        decreases n - k,
    {
        lens.push(0u16);
        k = k + 1;
    }
    let mut budget: u16 = total;
    let mut p: u8 = 0;
    while p < 3
        invariant
            0 <= p <= 3,
            n == cs@.len(),
            n >= 1,
            hints@.len() == n,
            slots_wf(cs@),
            lens@.len() == n,
            budget as int == max(0, t - below_desired(cs@, hints@, t, p as int)),
            t == total as int,
            forall|j: int|
                0 <= j < n && prio(cs@[j]) < p as int ==> #[trigger] lens@[j] as int == base_len(
                    cs@,
                    hints@,
                    t,
                    j,
                ),
            forall|j: int|
                0 <= j < n && prio(cs@[j]) >= p as int ==> #[trigger] lens@[j] == 0u16,
        decreases 3 - p,
    {
        let mut i: usize = 0;
        while i < n
            invariant
                0 <= i <= n,
                0 <= p < 3,
                n == cs@.len(),
                n >= 1,
                hints@.len() == n,
                slots_wf(cs@),
                lens@.len() == n,
                t == total as int,
                budget as int == max(
                    0,
                    t - below_desired(cs@, hints@, t, p as int) - class_desired_prefix(
                        cs@,
                        hints@,
                        t,
                        p as int,
                        i as int,
                    ),
                ),
                forall|j: int|
                    0 <= j < n && prio(cs@[j]) < p as int ==> #[trigger] lens@[j] as int
                        == base_len(cs@, hints@, t, j),
                forall|j: int|
                    0 <= j < i && prio(cs@[j]) == p as int ==> #[trigger] lens@[j] as int
                        == base_len(cs@, hints@, t, j),
                forall|j: int|
                    0 <= j < n && prio(cs@[j]) > p as int ==> #[trigger] lens@[j] == 0u16,
                forall|j: int|
                    i <= j < n && prio(cs@[j]) == p as int ==> #[trigger] lens@[j] == 0u16,
            decreases n - i,
        {
            proof {
                lemma_cdp_step(cs@, hints@, t, p as int, i as int);
            }
            if prio_of(&cs[i]) == p {
                let d = desired_of(&cs[i], total, hints[i]);
                let a = min_u16(d, budget);
                proof {
                    lemma_desired_bounds(cs@[i as int], t, hints@[i as int] as int);
                    assert(consumed_before(cs@, hints@, t, i as int) == below_desired(
                        cs@,
                        hints@,
                        t,
                        p as int,
                    ) + class_desired_prefix(cs@, hints@, t, p as int, i as int));
                }
                lens[i] = a;
                budget = budget - a;
            }
            i = i + 1;
        }
        proof {
            lemma_below_step(cs@, hints@, t, p as int);
        }
        p = p + 1;
    }
    proof {
        assert(below_desired(cs@, hints@, t, 3) == all_desired(cs@, hints@, t));
    }
    let ridx = absorber_index(cs);
    proof {
        lemma_slot_len_nonneg(cs@, hints@, t, ridx as int);
        lemma_slot_len_le_total(cs@, hints@, t, ridx as int);
    }
    let grown = lens[ridx] + budget;
    lens[ridx] = grown;
    lens
}

proof fn lemma_cdp_step(cs: Seq<SlotConstraint>, hints: Seq<usize>, total: int, p: int, i: int)
    requires
        0 <= i < cs.len(),
        hints.len() == cs.len(),
    ensures
        class_desired_prefix(cs, hints, total, p, i + 1) == class_desired_prefix(
            cs,
            hints,
            total,
            p,
            i,
        ) + if prio(cs[i]) == p {
            desired(cs[i], total, hints[i] as int)
        } else {
            0
        },
{
}

proof fn lemma_below_step(cs: Seq<SlotConstraint>, hints: Seq<usize>, total: int, p: int)
    requires
        0 <= p,
    ensures
        below_desired(cs, hints, total, p + 1) == below_desired(cs, hints, total, p)
            + class_desired_prefix(cs, hints, total, p, cs.len() as int),
{
}

/// Splits `rect` along `dir` into one region per slot of `cs`, resolving
/// sizes by constraint priority. `hints` carries, for each slot, the content
/// size a `ContentDriven` constraint measures (other slots ignore theirs).
pub fn split_region(rect: Region, dir: Direction, cs: &Vec<SlotConstraint>, hints: &Vec<usize>) -> (r:
    Vec<Region>)
    requires
        cs@.len() >= 1,
        hints@.len() == cs@.len(),
        slots_wf(cs@),
        rect.x + rect.width <= u16::MAX,
        rect.y + rect.height <= u16::MAX,
    ensures
        r@ == spec_split(rect, dir, cs@, hints@),
        r@.len() == cs@.len(),
{
    let total: u16 = match dir {
        Direction::Vertical => rect.height,
        Direction::Horizontal => rect.width,
    };
    let ghost t = total as int;
    proof {
        assert(t == axis_total(rect, dir));
    }
    let lens = solve_lengths(total, cs, hints);
    let n = cs.len();
    let mut out: Vec<Region> = Vec::new();
    let mut off: u16 = 0;
    let mut i: usize = 0;
    while i < n
        invariant
            0 <= i <= n,
            n == cs@.len(),
            n >= 1,
            hints@.len() == n,
            slots_wf(cs@),
            lens@.len() == n,
            t == total as int,
            t == axis_total(rect, dir),
            rect.x + rect.width <= u16::MAX,
            rect.y + rect.height <= u16::MAX,
            forall|j: int|
                0 <= j < n ==> #[trigger] lens@[j] as int == slot_len(cs@, hints@, t, j),
            off as int == len_prefix_sum(cs@, hints@, t, i as int),
            off <= total,
            out@.len() == i,
            forall|j: int|
                0 <= j < i ==> #[trigger] out@[j] == spec_child_region(rect, dir, cs@, hints@, j),
        decreases n - i,
    {
        proof {
            lemma_len_prefix_bounds(cs@, hints@, t, i as int + 1);
            assert(len_prefix_sum(cs@, hints@, t, i as int + 1) == len_prefix_sum(
                cs@,
                hints@,
                t,
                i as int,
            ) + slot_len(cs@, hints@, t, i as int));
        }
        let l = lens[i];
        let child = match dir {
            Direction::Vertical => Region {
                x: rect.x,
                y: rect.y + off,
                width: rect.width,
                height: l,
            },
            Direction::Horizontal => Region {
                x: rect.x + off,
                y: rect.y,
                width: l,
                height: rect.height,
            },
        };
        out.push(child);
        off = off + l;
        i = i + 1;
    }
    proof {
        assert(out@ =~= spec_split(rect, dir, cs@, hints@));
    }
    out
}

} // verus!
