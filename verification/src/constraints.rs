use vstd::prelude::*;
use vstd::math::{max, min};

verus! {

/// How one slot of a split negotiates its size along the split axis.
///
/// `Fixed(n)` and `ContentDriven { .. }` sizes are honored exactly whenever
/// the parent is large enough; `Percentage(p)` is computed against the
/// original parent size; `Min(n)` slots are flexible: they absorb whatever
/// space remains, and they are the first to shrink toward zero when space
/// runs out. A `ContentDriven` slot derives its size from a content hint:
/// `ceil(hint / group) + chrome` lines.
#[derive(Clone, Copy, PartialEq, Eq, Structural, Debug)]
pub enum SlotConstraint {
    Fixed(u16),
    Min(u16),
    Percentage(u16),
    ContentDriven { group: u16, chrome: u16 },
}

/// A constraint is well formed when a `ContentDriven` group is nonzero.
pub open spec fn slot_wf(c: SlotConstraint) -> bool {
    match c {
        SlotConstraint::ContentDriven { group, chrome: _ } => group >= 1,
        _ => true,
    }
}

pub open spec fn slots_wf(cs: Seq<SlotConstraint>) -> bool {
    forall|i: int| 0 <= i < cs.len() ==> slot_wf(#[trigger] cs[i])
}

/// Allocation priority: `Fixed` and `ContentDriven` sizes are served first,
/// then `Percentage`, then `Min`.
pub open spec fn prio(c: SlotConstraint) -> int {
    match c {
        SlotConstraint::Fixed(_) => 0,
        SlotConstraint::ContentDriven { .. } => 0,
        SlotConstraint::Percentage(_) => 1,
        SlotConstraint::Min(_) => 2,
    }
}

pub open spec fn ceil_div(a: int, b: int) -> int {
    if a % b == 0 {
        a / b
    } else {
        a / b + 1
    }
}

/// The height a content-driven slot asks for: one row per `group` content
/// lines, rounded up, plus `chrome` rows of border.
pub open spec fn content_len(hint: int, group: int, chrome: int) -> int {
    ceil_div(hint, group) + chrome
}

/// The length a slot asks for before clamping, against the original parent
/// size `total`.
pub open spec fn raw_desired(c: SlotConstraint, total: int, hint: int) -> int {
    match c {
        SlotConstraint::Fixed(n) => n as int,
        SlotConstraint::Min(n) => n as int,
        SlotConstraint::Percentage(p) => total * (p as int) / 100,
        SlotConstraint::ContentDriven { group, chrome } => content_len(
            hint,
            group as int,
            chrome as int,
        ),
    }
}

/// The length a slot asks for, clamped to the parent size (no single slot
/// can claim more than the whole parent).
pub open spec fn desired(c: SlotConstraint, total: int, hint: int) -> int {
    min(raw_desired(c, total, hint), total)
}

/// Sum of the desired lengths of the slots among `cs[0..k]` whose priority
/// is exactly `p`.
pub open spec fn class_desired_prefix(
    cs: Seq<SlotConstraint>,
    hints: Seq<usize>,
    total: int,
    p: int,
    k: int,
) -> int
    decreases k,
{
    if k <= 0 {
        0
    } else {
        class_desired_prefix(cs, hints, total, p, k - 1) + if prio(cs[k - 1]) == p {
            desired(cs[k - 1], total, hints[k - 1] as int)
        } else {
            0
        }
    }
}

/// Sum of the desired lengths of all slots whose priority is below `p`.
pub open spec fn below_desired(cs: Seq<SlotConstraint>, hints: Seq<usize>, total: int, p: int) -> int
    decreases p,
{
    if p <= 0 {
        0
    } else {
        below_desired(cs, hints, total, p - 1) + class_desired_prefix(
            cs,
            hints,
            total,
            p - 1,
            cs.len() as int,
        )
    }
}

/// Desired space already spoken for when slot `i` is served: everything of
/// higher priority, plus earlier slots of the same priority.
pub open spec fn consumed_before(cs: Seq<SlotConstraint>, hints: Seq<usize>, total: int, i: int) -> int {
    below_desired(cs, hints, total, prio(cs[i])) + class_desired_prefix(
        cs,
        hints,
        total,
        prio(cs[i]),
        i,
    )
}

/// The length slot `i` is granted before remainder distribution: its desired
/// length, cut down to whatever budget is left when it is served.
pub open spec fn base_len(cs: Seq<SlotConstraint>, hints: Seq<usize>, total: int, i: int) -> int {
    min(
        desired(cs[i], total, hints[i] as int),
        max(0, total - consumed_before(cs, hints, total, i)),
    )
}

/// Sum of every slot's desired length.
pub open spec fn all_desired(cs: Seq<SlotConstraint>, hints: Seq<usize>, total: int) -> int {
    below_desired(cs, hints, total, 3)
}

/// Space left after every slot got its base length.
pub open spec fn leftover(cs: Seq<SlotConstraint>, hints: Seq<usize>, total: int) -> int {
    max(0, total - all_desired(cs, hints, total))
}

/// Index of the first `Min` slot at or after `k`, or the last slot when
/// there is none.
pub open spec fn first_min_from(cs: Seq<SlotConstraint>, k: int) -> int
    decreases cs.len() - k,
{
    if k < 0 || k >= cs.len() {
        cs.len() as int - 1
    } else if cs[k] is Min {
        k
    } else {
        first_min_from(cs, k + 1)
    }
}

/// The slot that absorbs any space no slot asked for: the first `Min` slot,
/// or, when the split has none, its last slot. This keeps the children
/// exactly tiling the parent.
pub open spec fn absorber(cs: Seq<SlotConstraint>) -> int {
    first_min_from(cs, 0)
}

/// The final resolved length of slot `i`.
pub open spec fn slot_len(cs: Seq<SlotConstraint>, hints: Seq<usize>, total: int, i: int) -> int {
    base_len(cs, hints, total, i) + if i == absorber(cs) {
        leftover(cs, hints, total)
    } else {
        0
    }
}

/// Sum of the resolved lengths of the slots `cs[0..k]`.
pub open spec fn len_prefix_sum(cs: Seq<SlotConstraint>, hints: Seq<usize>, total: int, k: int) -> int
    decreases k,
{
    if k <= 0 {
        0
    } else {
        len_prefix_sum(cs, hints, total, k - 1) + slot_len(cs, hints, total, k - 1)
    }
}

/// Sum of the base lengths of the slots among `cs[0..k]` whose priority is
/// exactly `p`.
pub open spec fn class_base_prefix(
    cs: Seq<SlotConstraint>,
    hints: Seq<usize>,
    total: int,
    p: int,
    k: int,
) -> int
    decreases k,
{
    if k <= 0 {
        0
    } else {
        class_base_prefix(cs, hints, total, p, k - 1) + if prio(cs[k - 1]) == p {
            base_len(cs, hints, total, k - 1)
        } else {
            0
        }
    }
}

pub proof fn lemma_desired_bounds(c: SlotConstraint, total: int, hint: int)
    requires
        total >= 0,
        hint >= 0,
        slot_wf(c),
    ensures
        0 <= desired(c, total, hint) <= total,
{
    match c {
        SlotConstraint::Fixed(_) => {},
        SlotConstraint::Min(_) => {},
        SlotConstraint::Percentage(p) => {
            assert(total * (p as int) >= 0) by (nonlinear_arith)
                requires
                    total >= 0,
                    p as int >= 0,
            ;
            vstd::arithmetic::div_mod::lemma_div_pos_is_pos(total * (p as int), 100);
        },
        SlotConstraint::ContentDriven { group, chrome: _ } => {
            vstd::arithmetic::div_mod::lemma_div_pos_is_pos(hint, group as int);
        },
    }
}

pub proof fn lemma_cdp_mono(
    cs: Seq<SlotConstraint>,
    hints: Seq<usize>,
    total: int,
    p: int,
    k1: int,
    k2: int,
)
    requires
        total >= 0,
        slots_wf(cs),
        hints.len() == cs.len(),
        0 <= k1 <= k2 <= cs.len(),
    ensures
        class_desired_prefix(cs, hints, total, p, k1) <= class_desired_prefix(
            cs,
            hints,
            total,
            p,
            k2,
        ),
        0 <= class_desired_prefix(cs, hints, total, p, k2),
    decreases k2,
{
    if k2 <= 0 {
    } else if k1 == k2 {
        lemma_cdp_mono(cs, hints, total, p, 0, k2 - 1);
        if prio(cs[k2 - 1]) == p {
            lemma_desired_bounds(cs[k2 - 1], total, hints[k2 - 1] as int);
        }
    } else {
        lemma_cdp_mono(cs, hints, total, p, k1, k2 - 1);
        if prio(cs[k2 - 1]) == p {
            lemma_desired_bounds(cs[k2 - 1], total, hints[k2 - 1] as int);
        }
    }
}

/// Unfolds `below_desired` at the three priorities that occur.
pub proof fn lemma_below_unfold(cs: Seq<SlotConstraint>, hints: Seq<usize>, total: int)
    ensures
        below_desired(cs, hints, total, 0) == 0,
        below_desired(cs, hints, total, 1) == class_desired_prefix(
            cs,
            hints,
            total,
            0,
            cs.len() as int,
        ),
        below_desired(cs, hints, total, 2) == below_desired(cs, hints, total, 1)
            + class_desired_prefix(cs, hints, total, 1, cs.len() as int),
        below_desired(cs, hints, total, 3) == below_desired(cs, hints, total, 2)
            + class_desired_prefix(cs, hints, total, 2, cs.len() as int),
{
}

pub proof fn lemma_below_nonneg(cs: Seq<SlotConstraint>, hints: Seq<usize>, total: int, p: int)
    requires
        total >= 0,
        slots_wf(cs),
        hints.len() == cs.len(),
        0 <= p <= 3,
    ensures
        0 <= below_desired(cs, hints, total, p),
    decreases p,
{
    if p > 0 {
        lemma_below_nonneg(cs, hints, total, p - 1);
        lemma_cdp_mono(cs, hints, total, p - 1, 0, cs.len() as int);
    }
}

/// Every base length is at least zero and at most the slot's desired length.
pub proof fn lemma_base_bounds(cs: Seq<SlotConstraint>, hints: Seq<usize>, total: int, i: int)
    requires
        total >= 0,
        slots_wf(cs),
        hints.len() == cs.len(),
        0 <= i < cs.len(),
    ensures
        0 <= base_len(cs, hints, total, i),
        base_len(cs, hints, total, i) <= desired(cs[i], total, hints[i] as int),
        base_len(cs, hints, total, i) <= total,
{
    lemma_desired_bounds(cs[i], total, hints[i] as int);
}

/// Greedy allocation within one priority class: the class's base lengths sum
/// to its whole desired sum, cut off at whatever budget was left for it.
pub proof fn lemma_class_base_sum(
    cs: Seq<SlotConstraint>,
    hints: Seq<usize>,
    total: int,
    p: int,
    k: int,
)
    requires
        total >= 0,
        slots_wf(cs),
        hints.len() == cs.len(),
        0 <= k <= cs.len(),
    ensures
        class_base_prefix(cs, hints, total, p, k) == min(
            max(0, total - below_desired(cs, hints, total, p)),
            class_desired_prefix(cs, hints, total, p, k),
        ),
    decreases k,
{
    let b = max(0, total - below_desired(cs, hints, total, p));
    if k <= 0 {
    } else {
        lemma_class_base_sum(cs, hints, total, p, k - 1);
        let dk = class_desired_prefix(cs, hints, total, p, k - 1);
        lemma_cdp_mono(cs, hints, total, p, 0, k - 1);
        if prio(cs[k - 1]) == p {
            let d = desired(cs[k - 1], total, hints[k - 1] as int);
            lemma_desired_bounds(cs[k - 1], total, hints[k - 1] as int);
            assert(consumed_before(cs, hints, total, k - 1) == below_desired(cs, hints, total, p)
                + dk);
            assert(max(0, total - (below_desired(cs, hints, total, p) + dk)) == max(0, b - dk));
            assert(base_len(cs, hints, total, k - 1) == min(d, max(0, b - dk)));
            assert(min(b, dk) + min(d, max(0, b - dk)) == min(b, dk + d));
        }
    }
}

/// Sum of the resolved-length prefixes of the slots `cs[0..k]`, before the
/// remainder is handed out: every slot belongs to exactly one priority
/// class, so the total is the sum of the three per-class sums.
pub proof fn lemma_base_decompose(cs: Seq<SlotConstraint>, hints: Seq<usize>, total: int, k: int)
    requires
        total >= 0,
        slots_wf(cs),
        hints.len() == cs.len(),
        0 <= k <= cs.len(),
    ensures
        len_prefix_sum(cs, hints, total, k) == class_base_prefix(cs, hints, total, 0, k)
            + class_base_prefix(cs, hints, total, 1, k) + class_base_prefix(cs, hints, total, 2, k)
            + if 0 <= absorber(cs) < k {
            leftover(cs, hints, total)
        } else {
            0
        },
    decreases k,
{
    if k <= 0 {
    } else {
        lemma_base_decompose(cs, hints, total, k - 1);
        assert(0 <= prio(cs[k - 1]) <= 2);
    }
}

pub proof fn lemma_first_min_bounds(cs: Seq<SlotConstraint>, k: int)
    requires
        cs.len() >= 1,
        0 <= k,
    ensures
        first_min_from(cs, k) < cs.len(),
        k < cs.len() ==> 0 <= first_min_from(cs, k),
    decreases cs.len() - k,
{
    if k < cs.len() && !(cs[k] is Min) {
        lemma_first_min_bounds(cs, k + 1);
    }
}

/// The absorber index always names a slot.
pub proof fn lemma_absorber_in_range(cs: Seq<SlotConstraint>)
    requires
        cs.len() >= 1,
    ensures
        0 <= absorber(cs) < cs.len(),
{
    lemma_first_min_bounds(cs, 0);
}

/// The tiling theorem at the level of one axis: the resolved slot lengths
/// are each nonnegative and sum exactly to the parent's size — the split
/// leaves no gap and makes no overlap.
pub proof fn lemma_axis_tiling(cs: Seq<SlotConstraint>, hints: Seq<usize>, total: int)
    requires
        total >= 0,
        slots_wf(cs),
        hints.len() == cs.len(),
        cs.len() >= 1,
    ensures
        len_prefix_sum(cs, hints, total, cs.len() as int) == total,
        forall|i: int|
            0 <= i < cs.len() ==> 0 <= #[trigger] slot_len(cs, hints, total, i),
{
    let n = cs.len() as int;
    lemma_below_unfold(cs, hints, total);
    lemma_class_base_sum(cs, hints, total, 0, n);
    lemma_class_base_sum(cs, hints, total, 1, n);
    lemma_class_base_sum(cs, hints, total, 2, n);
    lemma_cdp_mono(cs, hints, total, 0, 0, n);
    lemma_cdp_mono(cs, hints, total, 1, 0, n);
    lemma_cdp_mono(cs, hints, total, 2, 0, n);
    lemma_base_decompose(cs, hints, total, n);
    lemma_absorber_in_range(cs);
    let d0 = class_desired_prefix(cs, hints, total, 0, n);
    let d1 = class_desired_prefix(cs, hints, total, 1, n);
    let d2 = class_desired_prefix(cs, hints, total, 2, n);
    assert(all_desired(cs, hints, total) == d0 + d1 + d2);
    assert(min(total, d0) + min(max(0, total - d0), d1) + min(max(0, total - (d0 + d1)), d2) + max(
        0,
        total - (d0 + d1 + d2),
    ) == total);
    assert forall|i: int| 0 <= i < cs.len() implies 0 <= #[trigger] slot_len(cs, hints, total, i) by {
        lemma_base_bounds(cs, hints, total, i);
    }
}

pub proof fn lemma_slot_len_nonneg(cs: Seq<SlotConstraint>, hints: Seq<usize>, total: int, i: int)
    requires
        total >= 0,
        slots_wf(cs),
        hints.len() == cs.len(),
        0 <= i < cs.len(),
    ensures
        0 <= slot_len(cs, hints, total, i),
        base_len(cs, hints, total, i) <= slot_len(cs, hints, total, i),
{
    lemma_base_bounds(cs, hints, total, i);
}

/// Every prefix of the resolved lengths fits inside the parent: resolved
/// regions never spill past the parent's far edge.
pub proof fn lemma_len_prefix_bounds(cs: Seq<SlotConstraint>, hints: Seq<usize>, total: int, k: int)
    requires
        total >= 0,
        slots_wf(cs),
        hints.len() == cs.len(),
        cs.len() >= 1,
        0 <= k <= cs.len(),
    ensures
        0 <= len_prefix_sum(cs, hints, total, k) <= total,
    decreases cs.len() - k,
{
    if k == cs.len() {
        lemma_axis_tiling(cs, hints, total);
    } else {
        lemma_len_prefix_bounds(cs, hints, total, k + 1);
        lemma_slot_len_nonneg(cs, hints, total, k);
        if k > 0 {
            lemma_nonneg_prefix(cs, hints, total, k);
        }
    }
}

proof fn lemma_nonneg_prefix(cs: Seq<SlotConstraint>, hints: Seq<usize>, total: int, k: int)
    requires
        total >= 0,
        slots_wf(cs),
        hints.len() == cs.len(),
        0 <= k <= cs.len(),
    ensures
        0 <= len_prefix_sum(cs, hints, total, k),
    decreases k,
{
    if k > 0 {
        lemma_nonneg_prefix(cs, hints, total, k - 1);
        lemma_slot_len_nonneg(cs, hints, total, k - 1);
    }
}

/// No single slot is ever granted more than the whole parent.
pub proof fn lemma_slot_len_le_total(cs: Seq<SlotConstraint>, hints: Seq<usize>, total: int, i: int)
    requires
        total >= 0,
        slots_wf(cs),
        hints.len() == cs.len(),
        cs.len() >= 1,
        0 <= i < cs.len(),
    ensures
        slot_len(cs, hints, total, i) <= total,
{
    lemma_len_prefix_bounds(cs, hints, total, i);
    lemma_len_prefix_bounds(cs, hints, total, i + 1);
}

/// When the exact-size slots (`Fixed` and `ContentDriven`) together fit in
/// the parent, each of them is honored exactly; the one that absorbs the
/// remainder can only gain.
pub proof fn lemma_exact_when_fits(cs: Seq<SlotConstraint>, hints: Seq<usize>, total: int, i: int)
    requires
        total >= 0,
        slots_wf(cs),
        hints.len() == cs.len(),
        0 <= i < cs.len(),
        prio(cs[i]) == 0,
        class_desired_prefix(cs, hints, total, 0, cs.len() as int) <= total,
    ensures
        base_len(cs, hints, total, i) == desired(cs[i], total, hints[i] as int),
        i != absorber(cs) ==> slot_len(cs, hints, total, i) == desired(cs[i], total, hints[i] as int),
        slot_len(cs, hints, total, i) >= desired(cs[i], total, hints[i] as int),
{
    let n = cs.len() as int;
    lemma_below_unfold(cs, hints, total);
    lemma_desired_bounds(cs[i], total, hints[i] as int);
    lemma_cdp_mono(cs, hints, total, 0, 0, i);
    assert(class_desired_prefix(cs, hints, total, 0, i + 1) == class_desired_prefix(
        cs,
        hints,
        total,
        0,
        i,
    ) + desired(cs[i], total, hints[i] as int));
    lemma_cdp_mono(cs, hints, total, 0, i + 1, n);
}

/// The graceful-degrade policy: if overflow ever cuts an exact-size slot
/// (`Fixed` or `ContentDriven`) short, then every flexible slot
/// (`Percentage` and `Min`) has already been shrunk all the way to zero.
pub proof fn lemma_overflow_starves_flexible(
    cs: Seq<SlotConstraint>,
    hints: Seq<usize>,
    total: int,
    i: int,
)
    requires
        total >= 0,
        slots_wf(cs),
        hints.len() == cs.len(),
        0 <= i < cs.len(),
        prio(cs[i]) == 0,
        slot_len(cs, hints, total, i) < desired(cs[i], total, hints[i] as int),
    ensures
        forall|j: int|
            0 <= j < cs.len() && prio(cs[j]) != 0 ==> #[trigger] slot_len(cs, hints, total, j)
                == 0,
{
    let n = cs.len() as int;
    lemma_below_unfold(cs, hints, total);
    lemma_slot_len_nonneg(cs, hints, total, i);
    let d = desired(cs[i], total, hints[i] as int);
    assert(base_len(cs, hints, total, i) < d);
    assert(total < consumed_before(cs, hints, total, i) + d);
    lemma_cdp_mono(cs, hints, total, 0, 0, i);
    assert(class_desired_prefix(cs, hints, total, 0, i + 1) == class_desired_prefix(
        cs,
        hints,
        total,
        0,
        i,
    ) + d);
    lemma_cdp_mono(cs, hints, total, 0, i + 1, n);
    let d0 = class_desired_prefix(cs, hints, total, 0, n);
    assert(total < d0);
    lemma_cdp_mono(cs, hints, total, 1, 0, n);
    lemma_cdp_mono(cs, hints, total, 2, 0, n);
    assert(leftover(cs, hints, total) == 0);
    assert forall|j: int| 0 <= j < cs.len() && prio(cs[j]) != 0 implies #[trigger] slot_len(
        cs,
        hints,
        total,
        j,
    ) == 0 by {
        lemma_cdp_mono(cs, hints, total, prio(cs[j]), 0, j);
        lemma_desired_bounds(cs[j], total, hints[j] as int);
        assert(consumed_before(cs, hints, total, j) >= d0);
        assert(base_len(cs, hints, total, j) == 0);
    }
}

} // verus!
