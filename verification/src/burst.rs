//! The layout of a "spiral portal burst": which portals a burst spawns and
//! in what order. Each slot fixes the portal's place in the pattern; the
//! positions and radii are then worked out from the slot, the time and the
//! audio energy.

use vstd::prelude::*;

verus! {

/// Number of concentric rings in a burst.
pub const BURST_RINGS: u32 = 3;

/// Number of portals on the straight line that follows the rings.
pub const BURST_LINE: u32 = 6;

/// The place of one portal in a burst.
#[derive(Clone, Copy, Debug, PartialEq, Eq, Structural)]
pub enum BurstSlot {
    /// Portal `index` of the `count` portals spaced evenly round ring `ring`
    /// (its progress round the ring is `index / count`, the ring's share of
    /// the rings is `ring / BURST_RINGS`).
    Ring { ring: u32, index: u32, count: u32 },
    /// Portal `index` on the line, at fraction `index / span` along it.
    Line { index: u32, span: u32 },
}

/// Ring `ring` holds `5 + 2 * ring` portals.
pub open spec fn ring_count(ring: nat) -> nat {
    5 + 2 * ring
}

/// The slots of ring `ring`, in order round the ring.
pub open spec fn ring_slots(ring: nat) -> Seq<BurstSlot> {
    Seq::new(
        ring_count(ring),
        |i: int|
            BurstSlot::Ring { ring: ring as u32, index: i as u32, count: ring_count(ring) as u32 },
    )
}

/// The span of the line: one less than its number of portals, at least 1.
pub open spec fn line_span() -> nat {
    if BURST_LINE - 1 >= 1 {
        (BURST_LINE - 1) as nat
    } else {
        1
    }
}

/// The slots of the line, in order along it.
pub open spec fn line_slots() -> Seq<BurstSlot> {
    Seq::new(
        BURST_LINE as nat,
        |i: int| BurstSlot::Line { index: i as u32, span: line_span() as u32 },
    )
}

/// The slots of the first `r` rings.
pub open spec fn rings_upto(r: nat) -> Seq<BurstSlot>
    decreases r,
{
    if r == 0 {
        Seq::empty()
    } else {
        rings_upto((r - 1) as nat) + ring_slots((r - 1) as nat)
    }
}

/// A whole burst: every ring from the innermost out, then the line.
pub open spec fn burst_plan() -> Seq<BurstSlot> {
    rings_upto(BURST_RINGS as nat) + line_slots()
}

/// The slots of a spiral portal burst, in spawn order: rings of 5, 7 and 9
/// portals from the innermost out, then 6 portals along a line.
pub fn burst_layout() -> (slots: Vec<BurstSlot>)
    ensures
        slots@ == burst_plan(),
{
    let mut slots: Vec<BurstSlot> = Vec::new();
    let rings = BURST_RINGS;
    let mut ring: u32 = 0;
    while ring < rings
        invariant
            rings == BURST_RINGS,
            ring <= rings,
            slots@ == rings_upto(ring as nat),
        decreases rings - ring,
    {
        let count = 5 + ring * 2;
        let ghost before = slots@;
        let mut i: u32 = 0;
        while i < count
            invariant
                ring < rings,
                rings == BURST_RINGS,
                count == ring_count(ring as nat),
                i <= count,
                slots@ == before + ring_slots(ring as nat).take(i as int),
            decreases count - i,
        {
            slots.push(BurstSlot::Ring { ring, index: i, count });
            proof {
                assert(ring_slots(ring as nat).take(i + 1) =~= ring_slots(ring as nat).take(
                    i as int,
                ).push(BurstSlot::Ring { ring, index: i, count }));
            }
            i = i + 1;
        }
        proof {
            assert(ring_slots(ring as nat).take(count as int) =~= ring_slots(ring as nat));
        }
        ring = ring + 1;
    }
    let portal_line = BURST_LINE;
    let span = if portal_line - 1 >= 1 { portal_line - 1 } else { 1 };
    let ghost before = slots@;
    let mut i: u32 = 0;
    while i < portal_line
        invariant
            portal_line == BURST_LINE,
            span == line_span(),
            i <= portal_line,
            slots@ == before + line_slots().take(i as int),
        decreases portal_line - i,
    {
        slots.push(BurstSlot::Line { index: i, span });
        proof {
            assert(line_slots().take(i + 1) =~= line_slots().take(i as int).push(
                BurstSlot::Line { index: i, span },
            ));
        }
        i = i + 1;
    }
    proof {
        assert(line_slots().take(portal_line as int) =~= line_slots());
    }
    slots
}

/// Shape of a burst: 27 portals; ring slots name one of the three rings and
/// a position below that ring's count, ring `r` contributing `5 + 2r`
/// portals; line slots lie within their span, from 0 to 1 along the line.
pub proof fn lemma_burst_shape()
    ensures
        burst_plan().len() == 27,
        forall|k: int|
            0 <= k < burst_plan().len() ==> match #[trigger] burst_plan()[k] {
                BurstSlot::Ring { ring, index, count } => ring < BURST_RINGS && count == ring_count(
                    ring as nat,
                ) && index < count,
                BurstSlot::Line { index, span } => span == 5 && index <= span,
            },
{
    reveal_with_fuel(rings_upto, 4);
    let r0 = ring_slots(0);
    let r1 = ring_slots(1);
    let r2 = ring_slots(2);
    assert(rings_upto(3) =~= r0 + r1 + r2);
    let plan = burst_plan();
    assert(plan =~= r0 + r1 + r2 + line_slots());
    assert forall|k: int| 0 <= k < plan.len() implies match #[trigger] plan[k] {
        BurstSlot::Ring { ring, index, count } => ring < BURST_RINGS && count == ring_count(
            ring as nat,
        ) && index < count,
        BurstSlot::Line { index, span } => span == 5 && index <= span,
    } by {
        if k < 5 {
            assert(plan[k] == r0[k]);
        } else if k < 12 {
            assert(plan[k] == r1[k - 5]);
        } else if k < 21 {
            assert(plan[k] == r2[k - 12]);
        } else {
            assert(plan[k] == line_slots()[k - 21]);
        }
    }
}

/// Where every portal of a burst sits: ring `r` (of 3) starts at position
/// `r * r + 4 * r` and its `k`-th slot is portal `k` of the `5 + 2 * r`
/// portals of that ring, so each ring lists its positions 0, 1, ... in
/// order; the line fills positions 21 to 26 with portals 0 to 5 over a span
/// of 5.
pub proof fn lemma_burst_slot_positions()
    ensures
        burst_plan().len() == 27,
        forall|r: int, k: int|
            0 <= r < 3 && 0 <= k < 5 + 2 * r ==> #[trigger] burst_plan()[r * r + 4 * r + k]
                == (BurstSlot::Ring { ring: r as u32, index: k as u32, count: (5 + 2 * r) as u32 }),
        forall|i: int|
            0 <= i < 6 ==> #[trigger] burst_plan()[21 + i] == (BurstSlot::Line {
                index: i as u32,
                span: 5,
            }),
{
    reveal_with_fuel(rings_upto, 4);
    let r0 = ring_slots(0);
    let r1 = ring_slots(1);
    let r2 = ring_slots(2);
    assert(rings_upto(3) =~= r0 + r1 + r2);
    let plan = burst_plan();
    assert(plan =~= r0 + r1 + r2 + line_slots());
    assert forall|r: int, k: int| 0 <= r < 3 && 0 <= k < 5 + 2 * r implies #[trigger] plan[r * r
        + 4 * r + k] == (BurstSlot::Ring {
        ring: r as u32,
        index: k as u32,
        count: (5 + 2 * r) as u32,
    }) by {
        if r == 0 {
            assert(r * r == 0);
            assert(plan[k] == r0[k]);
        } else if r == 1 {
            assert(r * r == 1) by (nonlinear_arith)
                requires
                    r == 1,
            ;
            assert(r * r + 4 * r + k == 5 + k);
            assert(plan[5 + k] == r1[k]);
        } else {
            assert(r * r == 4) by (nonlinear_arith)
                requires
                    r == 2,
            ;
            assert(r * r + 4 * r + k == 12 + k);
            assert(plan[12 + k] == r2[k]);
        }
    }
    assert forall|i: int| 0 <= i < 6 implies #[trigger] plan[21 + i] == (BurstSlot::Line {
        index: i as u32,
        span: 5,
    }) by {
        assert(plan[21 + i] == line_slots()[i]);
    }
}

} // verus!
