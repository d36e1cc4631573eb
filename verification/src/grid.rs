//! The hexagonal grid: rings of cells around an origin and the disk they
//! form.

use vstd::prelude::*;

verus! {

/// The cells that `h3o` reports at grid distance `k` from `cell`, in the
/// order in which it walks the ring, or `None` where `cell` is no cell
/// index or the walk meets a pentagon or its distortion.
pub uninterp spec fn ring_cells(cell: u64, k: u32) -> Option<Seq<u64>>;

/// The cells a ring contributes: an incomplete ring contributes none, and
/// ring zero of a cell is that cell alone.
pub open spec fn ring_or_empty(cell: u64, k: u32) -> Seq<u64> {
    match ring_cells(cell, k) {
        Some(cells) => if k == 0 {
            seq![cell]
        } else {
            cells
        },
        None => Seq::empty(),
    }
}

/// The cells of rings `0 .. rings` around `cell`, ring after ring.
pub open spec fn disk(cell: u64, rings: nat) -> Seq<u64>
    decreases rings,
{
    if rings == 0 {
        Seq::empty()
    } else {
        disk(cell, (rings - 1) as nat) + ring_or_empty(cell, (rings - 1) as u32)
    }
}

/// Calls `h3o::CellIndex::try_from` on `cell` and, for a cell index,
/// `h3o::CellIndex::grid_ring_fast` with `k`, collecting the ring as the
/// iterator yields it. The result is a function of the two arguments and is
/// named `ring_cells`; ring zero of a cell index is that cell alone.
#[verifier::external_body]
fn grid_ring(cell: u64, k: u32) -> (out: Option<Vec<u64>>)
    ensures
        match out {
            Some(cells) => ring_cells(cell, k) == Some(cells@),
            None => ring_cells(cell, k) is None,
        },
        k == 0 ==> match out {
            Some(cells) => cells@ == seq![cell],
            None => true,
        },
{
    let origin = h3o::CellIndex::try_from(cell).ok()?;
    origin.grid_ring_fast(k).map(|found| found.map(u64::from)).collect()
}

/// Collects the cells of the first `rings` rings around `cell`.
pub fn disk_cells(cell: u64, rings: u64) -> (out: Vec<u64>)
    requires
        rings <= 0x1_0000_0000,
    ensures
        out@ == disk(cell, rings as nat),
{
    let mut out: Vec<u64> = Vec::new();
    let mut k: u64 = 0;
    while k < rings
        invariant
            k <= rings <= 0x1_0000_0000,
            out@ == disk(cell, k as nat),
        decreases rings - k,
    {
        let ring = grid_ring(cell, k as u32);
        match ring {
            Some(mut cells) => {
                out.append(&mut cells);
            },
            None => {},
        }
        k = k + 1;
    }
    out
}

/// How many rings lie within the radius: the index of the first ring for
/// which `within` answers no.
pub open spec fn ring_count_of<T, W: Fn(u8, T, u32) -> bool>(
    within: W,
    res: u8,
    radius: T,
    rings: nat,
) -> bool {
    &&& rings <= 0x1_0000_0000
    &&& forall|r: u32| (r as nat) < rings ==> call_ensures(within, (res, radius, r), true)
    &&& rings < 0x1_0000_0000 ==> call_ensures(within, (res, radius, rings as u32), false)
}

/// Counts the rings from ring zero on that `within` accepts, stopping at
/// the first one it refuses.
pub fn included_rings<T: Copy, W: Fn(u8, T, u32) -> bool>(res: u8, radius: T, within: &W) -> (rings:
    u64)
    requires
        forall|r: u32| call_requires(*within, (res, radius, r)),
    ensures
        ring_count_of(*within, res, radius, rings as nat),
{
    let mut ring: u32 = 0;
    loop
        invariant
            forall|r: u32| call_requires(*within, (res, radius, r)),
            forall|r: u32| r < ring ==> call_ensures(*within, (res, radius, r), true),
        decreases u32::MAX - ring,
    {
        if !within(res, radius, ring) {
            return ring as u64;
        }
        if ring == u32::MAX {
            return 0x1_0000_0000;
        }
        ring = ring + 1;
    }
}

/// A rule that never says both yes and no of one ring.
pub open spec fn decides_rings<T, W: Fn(u8, T, u32) -> bool>(within: W) -> bool {
    forall|res: u8, radius: T, ring: u32|
        !(call_ensures(within, (res, radius, ring), true) && call_ensures(
            within,
            (res, radius, ring),
            false,
        ))
}

/// Whether no cell occurs twice in the first `rings` rings around `cell`:
/// neither twice in one ring nor in two of them.
pub open spec fn rings_disjoint(cell: u64, rings: nat) -> bool {
    forall|j: u32, k: u32, a: int, b: int|
        j < rings && k < rings && 0 <= a < ring_or_empty(cell, j).len() && 0 <= b < ring_or_empty(
            cell,
            k,
        ).len() && (j != k || a != b) ==> ring_or_empty(cell, j)[a] != ring_or_empty(cell, k)[b]
}

/// Every cell of a disk lies in one of its rings.
pub proof fn lemma_disk_cell_in_ring(cell: u64, rings: nat, i: int) -> (at: (u32, int))
    requires
        rings <= 0x1_0000_0000,
        0 <= i < disk(cell, rings).len(),
    ensures
        at.0 < rings,
        0 <= at.1 < ring_or_empty(cell, at.0).len(),
        disk(cell, rings)[i] == ring_or_empty(cell, at.0)[at.1],
        at.1 == i - disk(cell, at.0 as nat).len(),
    decreases rings,
{
    let inner = disk(cell, (rings - 1) as nat);
    if i < inner.len() {
        lemma_disk_cell_in_ring(cell, (rings - 1) as nat, i)
    } else {
        ((rings - 1) as u32, i - inner.len())
    }
}

/// A disk of fewer rings is the beginning of a disk of more rings around
/// the same cell.
pub proof fn lemma_disk_grows(cell: u64, fewer: nat, more: nat)
    requires
        fewer <= more,
    ensures
        disk(cell, fewer).is_prefix_of(disk(cell, more)),
    decreases more,
{
    if fewer < more {
        lemma_disk_grows(cell, fewer, (more - 1) as nat);
    }
}

/// Where the grid's rings are disjoint, no cell occurs twice in a disk.
pub proof fn lemma_disk_no_duplicates(cell: u64, rings: nat)
    requires
        rings <= 0x1_0000_0000,
        rings_disjoint(cell, rings),
    ensures
        disk(cell, rings).no_duplicates(),
{
    let cells = disk(cell, rings);
    assert forall|i: int, j: int| 0 <= i < cells.len() && 0 <= j < cells.len() && i != j implies cells[i]
        != cells[j] by {
        let at_i = lemma_disk_cell_in_ring(cell, rings, i);
        let at_j = lemma_disk_cell_in_ring(cell, rings, j);
        if at_i.0 == at_j.0 {
            assert(at_i.1 != at_j.1);
        }
    }
}

/// Of a rule that decides, the number of rings within a radius is one
/// number only.
pub proof fn lemma_ring_count_unique<T, W: Fn(u8, T, u32) -> bool>(
    within: W,
    res: u8,
    radius: T,
    a: nat,
    b: nat,
)
    requires
        decides_rings(within),
        ring_count_of(within, res, radius, a),
        ring_count_of(within, res, radius, b),
    ensures
        a == b,
{
    if a < b {
        assert(call_ensures(within, (res, radius, a as u32), true));
    }
    if b < a {
        assert(call_ensures(within, (res, radius, b as u32), true));
    }
}

/// Where the rule accepts exactly the rings up to `bound`, the number of
/// rings within the radius is `bound + 1`, and zero for a negative bound.
pub proof fn lemma_ring_count_from_bound<T, W: Fn(u8, T, u32) -> bool>(
    within: W,
    res: u8,
    radius: T,
    bound: int,
    rings: nat,
)
    requires
        ring_count_of(within, res, radius, rings),
        forall|ring: u32, answer: bool|
            call_ensures(within, (res, radius, ring), answer) ==> answer == (ring <= bound),
    ensures
        rings == if bound < 0 {
            0
        } else if bound >= 0xFFFF_FFFF {
            0x1_0000_0000
        } else {
            bound + 1
        },
{
    if rings < 0x1_0000_0000 {
        assert(call_ensures(within, (res, radius, rings as u32), false));
    }
    if rings > 0 {
        assert(call_ensures(within, (res, radius, (rings - 1) as u32), true));
    }
}

/// A wider radius never drops a ring: where the rule accepts under `wide`
/// every ring that it accepts under `narrow`, the rings under `narrow` are
/// among those under `wide`, and so are their cells.
pub proof fn lemma_wider_radius_keeps_rings<T, W: Fn(u8, T, u32) -> bool>(
    within: W,
    res: u8,
    narrow: T,
    wide: T,
    cell: u64,
    fewer: nat,
    more: nat,
)
    requires
        decides_rings(within),
        ring_count_of(within, res, narrow, fewer),
        ring_count_of(within, res, wide, more),
        forall|ring: u32|
            call_ensures(within, (res, narrow, ring), true) ==> call_ensures(
                within,
                (res, wide, ring),
                true,
            ),
    ensures
        fewer <= more,
        disk(cell, fewer).is_prefix_of(disk(cell, more)),
{
    if more < fewer {
        assert(call_ensures(within, (res, narrow, more as u32), true));
        assert(call_ensures(within, (res, wide, more as u32), false));
    }
    lemma_disk_grows(cell, fewer, more);
}

} // verus!
