//! Bookkeeping of the "holes" (portals) cut into the window: which screen
//! edge an edge portal runs along, the default portal set, which portals
//! survive each frame, and how the survivors are packed for the GPU.

use vstd::prelude::*;

verus! {

/// The most portals the GPU parameter block (and the window mask) holds.
pub const MAX_HOLES: usize = 8;

/// Free portals older than this many seconds fade away.
pub const FREE_HOLE_LIFETIME_SECS: u32 = 40;

/// The screen edge an edge portal runs along.
#[derive(Clone, Copy, Debug, PartialEq, Eq, Structural)]
pub enum Edge {
    /// Along the top edge: x follows the portal's progress, y stays near 0.
    Top,
    /// Along the bottom edge: x follows the progress, y stays near 1.
    Bottom,
    /// Along the left edge: y follows the progress, x stays near 0.
    Left,
    /// Along the right edge: y follows the progress, x stays near 1.
    Right,
}

/// Side numbers repeat every four: 0 top, 1 bottom, 2 left, 3 right.
pub open spec fn edge_for_side(side: u8) -> Edge {
    if side % 4 == 0 {
        Edge::Top
    } else if side % 4 == 1 {
        Edge::Bottom
    } else if side % 4 == 2 {
        Edge::Left
    } else {
        Edge::Right
    }
}

/// Even sides drift forward along their edge, odd sides backward.
pub open spec fn drift_for_side(side: u8) -> int {
    if side % 2 == 0 {
        1
    } else {
        -1
    }
}

/// The edge that side number `side` names.
pub fn edge_of(side: u8) -> (e: Edge)
    ensures
        e == edge_for_side(side),
{
    match side % 4 {
        0 => Edge::Top,
        1 => Edge::Bottom,
        2 => Edge::Left,
        _ => Edge::Right,
    }
}

/// The direction (+1 or -1) in which an edge portal on side `side` drifts
/// along its edge.
pub fn drift_sign(side: u8) -> (s: i8)
    ensures
        s as int == drift_for_side(side),
{
    if side % 2 == 0 {
        1
    } else {
        -1
    }
}

/// Portals on the top and left edges drift forward, those on the bottom
/// and right edges drift backward: the drift direction is a function of the
/// edge alone.
pub proof fn lemma_drift_follows_edge(side: u8)
    ensures
        drift_for_side(side) == 1 <==> (edge_for_side(side) == Edge::Top || edge_for_side(side)
            == Edge::Left),
        drift_for_side(side) == -1 <==> (edge_for_side(side) == Edge::Bottom || edge_for_side(
            side,
        ) == Edge::Right),
{
    assert((side % 4) % 2 == side % 2);
}

/// The default edge portals: (side, progress along the edge in hundredths).
pub open spec fn default_seeds() -> Seq<(u8, u32)> {
    seq![(0u8, 0u32), (1u8, 25u32), (2u8, 50u32), (3u8, 75u32), (0u8, 42u32), (1u8, 78u32)]
}

/// The portals a fresh field starts with: one on each edge at quarter
/// steps of progress, then two more on the top and bottom edges.
pub fn default_edge_seeds() -> (seeds: Vec<(u8, u32)>)
    ensures
        seeds@ == default_seeds(),
{
    let mut seeds: Vec<(u8, u32)> = Vec::new();
    let mut i: u8 = 0;
    while i < 4
        invariant
            i <= 4,
            seeds@ == default_seeds().take(i as int),
        decreases 4 - i,
    {
        seeds.push((i, 25 * (i as u32)));
        proof {
            assert(default_seeds().take(i + 1) =~= default_seeds().take(i as int).push(
                (i, (25 * i) as u32),
            ));
        }
        i = i + 1;
    }
    seeds.push((0, 42));
    seeds.push((1, 78));
    proof {
        assert(seeds@ =~= default_seeds());
    }
    seeds
}

/// Side numbers name the edges in the order top, bottom, left, right and
/// repeat every four.
pub proof fn lemma_sides_name_edges(side: u8)
    ensures
        side % 4 == 0 ==> edge_for_side(side) == Edge::Top,
        side % 4 == 1 ==> edge_for_side(side) == Edge::Bottom,
        side % 4 == 2 ==> edge_for_side(side) == Edge::Left,
        side % 4 == 3 ==> edge_for_side(side) == Edge::Right,
        side >= 4 ==> edge_for_side(side) == edge_for_side((side - 4) as u8),
{
}

/// The default portals put one on each of the four edges, at progress
/// 0, 0.25, 0.50 and 0.75 in that order, then two more on the top and
/// bottom edges; every progress is below one whole edge.
pub proof fn lemma_default_seeds_cover_edges()
    ensures
        default_seeds().len() == 6,
        forall|i: int| 0 <= i < 4 ==> #[trigger] default_seeds()[i].0 == i && default_seeds()[i].1 == 25 * i,
        edge_for_side(default_seeds()[4].0) == Edge::Top,
        edge_for_side(default_seeds()[5].0) == Edge::Bottom,
        forall|i: int| 0 <= i < 6 ==> #[trigger] default_seeds()[i].1 < 100,
{
}

/// Radius keys order bit patterns as IEEE 754 total order does: among
/// non-negative patterns a larger pattern has a larger key, among patterns
/// with the sign bit a larger pattern has a smaller key, every pattern with
/// the sign bit is below every one without, and distinct patterns have
/// distinct keys.
pub proof fn lemma_radius_keys_total_order(a: u32, b: u32)
    ensures
        a < b && b < 0x8000_0000 ==> order_key(a) < order_key(b),
        0x8000_0000 <= a && a < b ==> order_key(a) > order_key(b),
        a >= 0x8000_0000 && b < 0x8000_0000 ==> order_key(a) < 0 <= order_key(b),
        a != b ==> order_key(a) != order_key(b),
        i32::MIN <= order_key(a) <= i32::MAX,
{
}

/// What the survival rules need to know of a portal: whether it is free
/// (spawned by the user, not pinned to an edge), whether it has outlived
/// its lifetime, and a key that orders portals by radius.
#[derive(Clone, Copy, Debug)]
pub struct HoleTag {
    pub free: bool,
    pub expired: bool,
    pub radius_key: i32,
}

/// The key of the 32 bits of a radius: non-negative bit patterns keep their
/// value, patterns with the sign bit set are mirrored below zero.
pub open spec fn order_key(bits: u32) -> int {
    if bits < 0x8000_0000 {
        bits as int
    } else {
        0x7fff_ffff - bits
    }
}

/// Integer key of a radius given by its IEEE 754 bit pattern. Comparing keys
/// compares the radii in IEEE 754 total order (the order of
/// `f32::total_cmp`): positive values by magnitude, negative ones mirrored
/// below them.
pub fn radius_order_key(bits: u32) -> (k: i32)
    ensures
        k as int == order_key(bits),
{
    if bits < 0x8000_0000 {
        bits as i32
    } else {
        -1 - ((bits - 0x8000_0000) as i32)
    }
}

/// A portal outlives the ageing step unless it is free and expired.
pub open spec fn survives_aging(t: HoleTag) -> bool {
    !t.free || !t.expired
}

/// Indices of the first `n` portals that survive ageing, in order.
pub open spec fn aged(tags: Seq<HoleTag>, n: nat) -> Seq<usize>
    decreases n,
{
    if n == 0 {
        Seq::empty()
    } else {
        let rest = aged(tags, (n - 1) as nat);
        if survives_aging(tags[n - 1]) {
            rest.push((n - 1) as usize)
        } else {
            rest
        }
    }
}

/// Position `p` of `idx` holds the free portal that is evicted next: the
/// first free portal whose radius key is the least among the free ones.
pub open spec fn is_eviction_pick(tags: Seq<HoleTag>, idx: Seq<usize>, p: int) -> bool {
    &&& 0 <= p < idx.len()
    &&& tags[idx[p] as int].free
    &&& forall|q: int|
        0 <= q < idx.len() && tags[idx[q] as int].free ==> tags[idx[p] as int].radius_key
            <= tags[idx[q] as int].radius_key
    &&& forall|q: int|
        0 <= q < p && tags[idx[q] as int].free ==> tags[idx[q] as int].radius_key
            > tags[idx[p] as int].radius_key
}

/// While more than `max` portals remain, the smallest free portal (the first
/// of equals) is removed; when no free portal is left, the rest stay.
pub open spec fn evicted(tags: Seq<HoleTag>, idx: Seq<usize>, max: nat) -> Seq<usize>
    decreases idx.len(),
{
    if idx.len() <= max {
        idx
    } else if exists|p: int| is_eviction_pick(tags, idx, p) {
        let p = choose|p: int| is_eviction_pick(tags, idx, p);
        evicted(tags, idx.remove(p), max)
    } else {
        idx
    }
}

/// Indices of the portals that survive a frame: ageing, then eviction down
/// to `max` portals.
pub open spec fn survivors(tags: Seq<HoleTag>, max: nat) -> Seq<usize> {
    evicted(tags, aged(tags, tags.len()), max)
}

/// The indices, in order, of the portals that remain after a frame: free
/// portals that expired are dropped, then, while more than `max_holes`
/// remain, the free portal with the smallest radius (the first of equals)
/// is removed; edge portals are never removed.
pub fn surviving_holes(tags: &Vec<HoleTag>, max_holes: usize) -> (kept: Vec<usize>)
    ensures
        kept@ == survivors(tags@, max_holes as nat),
{
    let n = tags.len();
    let mut kept: Vec<usize> = Vec::new();
    let mut i: usize = 0;
    while i < n
        invariant
            i <= n,
            n == tags@.len(),
            kept@ == aged(tags@, i as nat),
            forall|k: int| 0 <= k < kept@.len() ==> kept@[k] < i,
        decreases n - i,
    {
        let t = tags[i];
        if !t.free || !t.expired {
            kept.push(i);
        }
        i = i + 1;
    }
    let ghost target = evicted(tags@, kept@, max_holes as nat);
    while kept.len() > max_holes
        invariant
            evicted(tags@, kept@, max_holes as nat) == target,
            forall|k: int| 0 <= k < kept@.len() ==> kept@[k] < tags@.len(),
        ensures
            kept@ == target,
        decreases kept@.len(),
    {
        let pick = first_smallest_free(tags, &kept);
        match pick {
            Some(p) => {
                proof {
                    lemma_pick_unique(tags@, kept@, p as int);
                }
                kept.remove(p);
            },
            None => {
                break;
            },
        }
    }
    kept
}

/// The first position in `idx` of a free portal with the least radius key,
/// if any portal in `idx` is free.
fn first_smallest_free(tags: &Vec<HoleTag>, idx: &Vec<usize>) -> (pick: Option<usize>)
    requires
        forall|k: int| 0 <= k < idx@.len() ==> idx@[k] < tags@.len(),
    ensures
        match pick {
            Some(p) => is_eviction_pick(tags@, idx@, p as int),
            None => !exists|p: int| is_eviction_pick(tags@, idx@, p),
        },
{
    let mut best: Option<usize> = None;
    let mut q: usize = 0;
    while q < idx.len()
        invariant
            q <= idx@.len(),
            forall|k: int| 0 <= k < idx@.len() ==> idx@[k] < tags@.len(),
            match best {
                Some(b) => {
                    &&& b < q
                    &&& tags@[idx@[b as int] as int].free
                    &&& forall|r: int|
                        0 <= r < q && tags@[idx@[r] as int].free ==> tags@[idx@[b as int] as int].radius_key
                            <= tags@[idx@[r] as int].radius_key
                    &&& forall|r: int|
                        0 <= r < b && tags@[idx@[r] as int].free ==> tags@[idx@[r] as int].radius_key
                            > tags@[idx@[b as int] as int].radius_key
                },
                None => forall|r: int| 0 <= r < q ==> !tags@[idx@[r] as int].free,
            },
        decreases idx@.len() - q,
    {
        let t = tags[idx[q]];
        if t.free {
            match best {
                None => {
                    best = Some(q);
                },
                Some(b) => {
                    if t.radius_key < tags[idx[b]].radius_key {
                        best = Some(q);
                    }
                },
            }
        }
        q = q + 1;
    }
    proof {
        if best is None {
            assert forall|p: int| !is_eviction_pick(tags@, idx@, p) by {
                if 0 <= p < idx@.len() {
                    assert(!tags@[idx@[p] as int].free);
                }
            }
        }
    }
    best
}

/// At most one position is the eviction pick, so removing the position that
/// was found is what `evicted` does.
proof fn lemma_pick_unique(tags: Seq<HoleTag>, idx: Seq<usize>, p: int)
    requires
        is_eviction_pick(tags, idx, p),
    ensures
        forall|p2: int| is_eviction_pick(tags, idx, p2) ==> p2 == p,
        (choose|p2: int| is_eviction_pick(tags, idx, p2)) == p,
{
    assert forall|p2: int| is_eviction_pick(tags, idx, p2) implies p2 == p by {
        if p2 < p {
            assert(tags[idx[p2] as int].radius_key > tags[idx[p] as int].radius_key);
        } else if p < p2 {
            assert(tags[idx[p] as int].radius_key > tags[idx[p2] as int].radius_key);
        }
    }
}

/// `s` lists indices in strictly increasing order.
pub open spec fn strictly_increasing(s: Seq<usize>) -> bool {
    forall|i: int, j: int| 0 <= i < j < s.len() ==> s[i] < s[j]
}

/// Ageing keeps portals in order, keeps exactly the survivors of ageing,
/// and lists only real portals.
proof fn lemma_aged_props(tags: Seq<HoleTag>, n: nat)
    requires
        n <= tags.len(),
        tags.len() <= usize::MAX,
    ensures
        strictly_increasing(aged(tags, n)),
        forall|k: int| 0 <= k < aged(tags, n).len() ==> (aged(tags, n)[k] as int) < n,
        forall|x: int|
            0 <= x < n ==> (aged(tags, n).contains(x as usize) <==> survives_aging(tags[x])),
    decreases n,
{
    if n > 0 {
        lemma_aged_props(tags, (n - 1) as nat);
        let rest = aged(tags, (n - 1) as nat);
        assert forall|x: int|
            0 <= x < n implies (aged(tags, n).contains(x as usize) <==> survives_aging(
            tags[x],
        )) by {
            if x < n - 1 {
                if survives_aging(tags[n - 1]) {
                    if aged(tags, n).contains(x as usize) {
                        let k = choose|k: int|
                            0 <= k < aged(tags, n).len() && aged(tags, n)[k] == x as usize;
                        if k < rest.len() {
                            assert(rest.contains(x as usize));
                        }
                    }
                    if rest.contains(x as usize) {
                        let k = choose|k: int| 0 <= k < rest.len() && rest[k] == x as usize;
                        assert(aged(tags, n)[k] == x as usize);
                    }
                }
            } else {
                if survives_aging(tags[n - 1]) {
                    assert(aged(tags, n)[rest.len() as int] == x as usize);
                } else {
                    if rest.contains(x as usize) {
                        let k = choose|k: int| 0 <= k < rest.len() && rest[k] == x as usize;
                    }
                }
            }
        }
    }
}

/// Eviction keeps order, only removes free portals, and stops above `max`
/// only when every remaining portal is pinned.
proof fn lemma_evicted_props(tags: Seq<HoleTag>, idx: Seq<usize>, max: nat)
    requires
        strictly_increasing(idx),
    ensures
        strictly_increasing(evicted(tags, idx, max)),
        forall|x: usize| evicted(tags, idx, max).contains(x) ==> idx.contains(x),
        forall|x: usize|
            idx.contains(x) && !tags[x as int].free ==> evicted(tags, idx, max).contains(x),
        evicted(tags, idx, max).len() <= max || forall|k: int|
            0 <= k < evicted(tags, idx, max).len() ==> !tags[evicted(tags, idx, max)[k] as int].free,
    decreases idx.len(),
{
    if idx.len() <= max {
    } else if exists|p: int| is_eviction_pick(tags, idx, p) {
        let p = choose|p: int| is_eviction_pick(tags, idx, p);
        let idx2 = idx.remove(p);
        assert forall|k: int| 0 <= k < idx2.len() implies idx2[k] == (if k < p {
            idx[k]
        } else {
            idx[k + 1]
        }) by {}
        assert(strictly_increasing(idx2));
        lemma_evicted_props(tags, idx2, max);
        let res = evicted(tags, idx2, max);
        assert forall|x: usize| res.contains(x) implies idx.contains(x) by {
            assert(idx2.contains(x));
            let k = choose|k: int| 0 <= k < idx2.len() && idx2[k] == x;
            if k < p {
                assert(idx[k] == x);
            } else {
                assert(idx[k + 1] == x);
            }
        }
        assert forall|x: usize| idx.contains(x) && !tags[x as int].free implies res.contains(x) by {
            let k = choose|k: int| 0 <= k < idx.len() && idx[k] == x;
            assert(k != p);
            if k < p {
                assert(idx2[k] == x);
            } else {
                assert(idx2[k - 1] == x);
            }
            assert(idx2.contains(x));
        }
    } else {
        assert forall|k: int| 0 <= k < idx.len() implies !tags[idx[k] as int].free by {
            if tags[idx[k] as int].free {
                lemma_some_free_has_pick(tags, idx, k);
            }
        }
    }
}

/// If any portal in `idx` is free, some position is the eviction pick.
proof fn lemma_some_free_has_pick(tags: Seq<HoleTag>, idx: Seq<usize>, k: int)
    requires
        0 <= k < idx.len(),
        tags[idx[k] as int].free,
    ensures
        exists|p: int| is_eviction_pick(tags, idx, p),
{
    lemma_least_free(tags, idx, idx.len() as int);
    let m = choose|m: int| least_free_upto(tags, idx, m, idx.len() as int);
    lemma_first_with_key(tags, idx, m);
}

/// Position `m`, below `n`, holds a free portal whose key is the least of
/// the free portals among the first `n` positions.
spec fn least_free_upto(tags: Seq<HoleTag>, idx: Seq<usize>, m: int, n: int) -> bool {
    &&& 0 <= m < n
    &&& tags[idx[m] as int].free
    &&& forall|r: int|
        0 <= r < n && #[trigger] tags[idx[r] as int].free ==> tags[idx[m] as int].radius_key
            <= tags[idx[r] as int].radius_key
}

/// When some portal among the first `n` positions is free, one of them has
/// the least key.
proof fn lemma_least_free(tags: Seq<HoleTag>, idx: Seq<usize>, n: int)
    requires
        0 < n <= idx.len(),
        exists|k: int| 0 <= k < n && #[trigger] tags[idx[k] as int].free,
    ensures
        exists|m: int| least_free_upto(tags, idx, m, n),
    decreases n,
{
    let last = n - 1;
    if exists|k: int| 0 <= k < last && #[trigger] tags[idx[k] as int].free {
        lemma_least_free(tags, idx, last);
        let m = choose|m: int| least_free_upto(tags, idx, m, last);
        if tags[idx[last] as int].free && tags[idx[last] as int].radius_key
            < tags[idx[m] as int].radius_key {
            assert(least_free_upto(tags, idx, last, n));
        } else {
            assert(least_free_upto(tags, idx, m, n));
        }
    } else {
        assert(least_free_upto(tags, idx, last, n));
    }
}

/// Given a free portal at `m` with the least key, the first free portal
/// with that key is the eviction pick.
proof fn lemma_first_with_key(tags: Seq<HoleTag>, idx: Seq<usize>, m: int)
    requires
        0 <= m < idx.len(),
        tags[idx[m] as int].free,
        forall|r: int|
            0 <= r < idx.len() && tags[idx[r] as int].free ==> tags[idx[m] as int].radius_key
                <= tags[idx[r] as int].radius_key,
    ensures
        exists|p: int| is_eviction_pick(tags, idx, p),
    decreases m,
{
    if exists|j: int|
        0 <= j < m && tags[idx[j] as int].free && tags[idx[j] as int].radius_key == tags[idx[
            m
        ] as int].radius_key {
        let j = choose|j: int|
            0 <= j < m && tags[idx[j] as int].free && tags[idx[j] as int].radius_key == tags[idx[
                m
            ] as int].radius_key;
        lemma_first_with_key(tags, idx, j);
    } else {
        assert(is_eviction_pick(tags, idx, m));
    }
}

/// Survival rules, as kept by each frame: survivors are listed in their
/// original order; every edge (non-free) portal survives; no free portal
/// that expired survives; and more than `max` portals remain only when all
/// of them are edge portals.
pub proof fn lemma_survivor_rules(tags: Seq<HoleTag>, max: nat)
    requires
        tags.len() <= usize::MAX,
    ensures
        strictly_increasing(survivors(tags, max)),
        forall|k: int|
            0 <= k < survivors(tags, max).len() ==> (survivors(tags, max)[k] as int) < tags.len()
                && survives_aging(tags[survivors(tags, max)[k] as int]),
        forall|x: int| 0 <= x < tags.len() && !tags[x].free ==> survivors(tags, max).contains(
            x as usize,
        ),
        survivors(tags, max).len() <= max || forall|k: int|
            0 <= k < survivors(tags, max).len() ==> !tags[survivors(tags, max)[k] as int].free,
{
    let n = tags.len();
    lemma_aged_props(tags, n);
    let a = aged(tags, n);
    lemma_evicted_props(tags, a, max);
    let s = survivors(tags, max);
    assert forall|k: int| 0 <= k < s.len() implies (s[k] as int) < tags.len() && survives_aging(
        tags[s[k] as int],
    ) by {
        assert(s.contains(s[k]));
        assert(a.contains(s[k]));
        let j = choose|j: int| 0 <= j < a.len() && a[j] == s[k];
    }
    assert forall|x: int| 0 <= x < tags.len() && !tags[x].free implies s.contains(x as usize) by {
        assert(a.contains(x as usize));
    }
}

/// Eviction removes smallest-first: every portal it removes is free, with a
/// radius key below that of every free portal it keeps, or equal to it and
/// earlier; and once it removes anything it keeps at least `max` portals.
proof fn lemma_evicted_removes_smallest(tags: Seq<HoleTag>, idx: Seq<usize>, max: nat)
    requires
        strictly_increasing(idx),
    ensures
        evicted(tags, idx, max).len() <= idx.len(),
        evicted(tags, idx, max).len() < idx.len() ==> evicted(tags, idx, max).len() >= max,
        forall|x: usize, y: usize|
            #![trigger idx.contains(x), evicted(tags, idx, max).contains(y)]
            idx.contains(x) && !evicted(tags, idx, max).contains(x) && evicted(
                tags,
                idx,
                max,
            ).contains(y) && tags[y as int].free ==> tags[x as int].free && (tags[x as int].radius_key
                < tags[y as int].radius_key || (tags[x as int].radius_key
                == tags[y as int].radius_key && x < y)),
    decreases idx.len(),
{
    if idx.len() <= max {
    } else if exists|p: int| is_eviction_pick(tags, idx, p) {
        let p = choose|p: int| is_eviction_pick(tags, idx, p);
        let idx2 = idx.remove(p);
        assert forall|k: int| 0 <= k < idx2.len() implies idx2[k] == (if k < p {
            idx[k]
        } else {
            idx[k + 1]
        }) by {}
        assert(strictly_increasing(idx2));
        lemma_evicted_removes_smallest(tags, idx2, max);
        lemma_evicted_props(tags, idx2, max);
        let res = evicted(tags, idx2, max);
        assert(res == evicted(tags, idx, max));
        let x0 = idx[p];
        assert forall|x: usize, y: usize|
            #![trigger idx.contains(x), res.contains(y)]
            idx.contains(x) && !res.contains(x) && res.contains(y) && tags[y as int].free implies tags[x as int].free
                && (tags[x as int].radius_key < tags[y as int].radius_key || (tags[x as int].radius_key
                == tags[y as int].radius_key && x < y)) by {
            assert(idx2.contains(y));
            let qy = choose|q: int| 0 <= q < idx2.len() && idx2[q] == y;
            let qi = if qy < p { qy } else { qy + 1 };
            assert(idx[qi] == y);
            assert(qi != p);
            if x == x0 {
                assert(tags[x0 as int].radius_key <= tags[y as int].radius_key);
                if tags[x0 as int].radius_key == tags[y as int].radius_key {
                    if qi < p {
                        assert(tags[idx[qi] as int].radius_key > tags[x0 as int].radius_key);
                    } else {
                        assert(idx[p] < idx[qi]);
                    }
                }
            } else {
                let kx = choose|k: int| 0 <= k < idx.len() && idx[k] == x;
                assert(kx != p);
                if kx < p {
                    assert(idx2[kx] == x);
                } else {
                    assert(idx2[kx - 1] == x);
                }
                assert(idx2.contains(x));
            }
        }
    } else {
    }
}

/// Survivors of a frame, stated as what eviction leaves behind: a portal
/// that aged well but did not survive was free, and its radius key is below
/// that of every free survivor, or equal to it with the removed portal
/// earlier in the list; and eviction never goes below `max` portals.
pub proof fn lemma_eviction_takes_smallest_first(tags: Seq<HoleTag>, max: nat)
    requires
        tags.len() <= usize::MAX,
    ensures
        forall|x: int, y: int|
            #![trigger survivors(tags, max).contains(x as usize), survivors(tags, max).contains(y as usize)]
            0 <= x < tags.len() && 0 <= y < tags.len() && survives_aging(tags[x])
                && !survivors(tags, max).contains(x as usize) && survivors(tags, max).contains(
                y as usize,
            ) && tags[y].free ==> tags[x].free && (tags[x].radius_key < tags[y].radius_key || (
            tags[x].radius_key == tags[y].radius_key && x < y)),
        forall|x: int|
            #![trigger survivors(tags, max).contains(x as usize)]
            0 <= x < tags.len() && survives_aging(tags[x]) && !survivors(tags, max).contains(
                x as usize,
            ) ==> survivors(tags, max).len() >= max,
{
    let n = tags.len();
    lemma_aged_props(tags, n);
    let a = aged(tags, n);
    lemma_evicted_removes_smallest(tags, a, max);
    let s = survivors(tags, max);
    assert forall|x: int, y: int|
        #![trigger s.contains(x as usize), s.contains(y as usize)]
        0 <= x < tags.len() && 0 <= y < tags.len() && survives_aging(tags[x]) && !s.contains(
            x as usize,
        ) && s.contains(y as usize) && tags[y].free implies tags[x].free && (tags[x].radius_key
        < tags[y].radius_key || (tags[x].radius_key == tags[y].radius_key && x < y)) by {
        assert(a.contains(x as usize));
        assert(a.contains(x as usize) && !s.contains(x as usize) && s.contains(y as usize));
    }
    assert forall|x: int|
        #![trigger s.contains(x as usize)]
        0 <= x < tags.len() && survives_aging(tags[x]) && !s.contains(x as usize) implies s.len()
        >= max by {
        assert(a.contains(x as usize));
        if s.len() >= a.len() {
            lemma_evicted_props(tags, a, max);
            // s is a sub-list of a of the same length: it is a
            assert(s.len() == a.len());
            lemma_same_len_sublist(s, a, x as usize);
        }
    }
}

/// A strictly increasing list whose elements all come from a strictly
/// increasing list of the same length holds every element of it.
proof fn lemma_same_len_sublist(s: Seq<usize>, a: Seq<usize>, x: usize)
    requires
        strictly_increasing(s),
        strictly_increasing(a),
        s.len() == a.len(),
        forall|v: usize| s.contains(v) ==> a.contains(v),
        a.contains(x),
    ensures
        s.contains(x),
{
    // Map each position of s to its position in a; the map is increasing,
    // so it is the identity.
    assert forall|k: int| 0 <= k < s.len() implies s[k] == a[k] by {
        lemma_sublist_position(s, a, k);
    }
    let j = choose|j: int| 0 <= j < a.len() && a[j] == x;
    assert(s[j] == x);
}

/// Position `k` of `s` holds `a[k]` when `s` is an increasing sub-list of
/// the increasing `a` of the same length.
proof fn lemma_sublist_position(s: Seq<usize>, a: Seq<usize>, k: int)
    requires
        strictly_increasing(s),
        strictly_increasing(a),
        s.len() == a.len(),
        forall|v: usize| s.contains(v) ==> a.contains(v),
        0 <= k < s.len(),
    ensures
        s[k] == a[k],
{
    let pos = Seq::new(s.len(), |i: int| choose|j: int| 0 <= j < a.len() && a[j] == s[i]);
    assert forall|i: int| 0 <= i < s.len() implies 0 <= #[trigger] pos[i] < a.len() && a[pos[i]] == s[i] by {
        assert(s.contains(s[i]));
        assert(a.contains(s[i]));
    }
    assert forall|i: int, j: int| 0 <= i < j < s.len() implies #[trigger] pos[i] < #[trigger] pos[j] by {
        if pos[i] >= pos[j] {
            if pos[i] == pos[j] {
            } else {
                assert(a[pos[j]] < a[pos[i]]);
            }
        }
    }
    lemma_increasing_index_map(pos, a.len() as int, k);
}

/// A strictly increasing map from `0..n` into `0..n` is the identity.
proof fn lemma_increasing_index_map(pos: Seq<int>, n: int, k: int)
    requires
        pos.len() == n,
        forall|i: int| 0 <= i < n ==> 0 <= #[trigger] pos[i] < n,
        forall|i: int, j: int| 0 <= i < j < n ==> #[trigger] pos[i] < #[trigger] pos[j],
        0 <= k < n,
    ensures
        pos[k] == k,
{
    lemma_index_map_lower(pos, n, k);
    lemma_index_map_upper(pos, n, k);
}

proof fn lemma_index_map_lower(pos: Seq<int>, n: int, k: int)
    requires
        pos.len() == n,
        forall|i: int| 0 <= i < n ==> 0 <= #[trigger] pos[i] < n,
        forall|i: int, j: int| 0 <= i < j < n ==> #[trigger] pos[i] < #[trigger] pos[j],
        0 <= k < n,
    ensures
        pos[k] >= k,
    decreases k,
{
    if k > 0 {
        lemma_index_map_lower(pos, n, k - 1);
        assert(pos[k - 1] < pos[k]);
    }
}

proof fn lemma_index_map_upper(pos: Seq<int>, n: int, k: int)
    requires
        pos.len() == n,
        forall|i: int| 0 <= i < n ==> 0 <= #[trigger] pos[i] < n,
        forall|i: int, j: int| 0 <= i < j < n ==> #[trigger] pos[i] < #[trigger] pos[j],
        0 <= k < n,
    ensures
        pos[k] <= k,
    decreases n - k,
{
    if k < n - 1 {
        lemma_index_map_upper(pos, n, k + 1);
        assert(pos[k] < pos[k + 1]);
    }
}

/// Number of portals the GPU is told about.
pub fn active_holes(count: usize) -> (n: u32)
    ensures
        n as int == if count < MAX_HOLES { count as int } else { MAX_HOLES as int },
{
    if count < MAX_HOLES {
        count as u32
    } else {
        MAX_HOLES as u32
    }
}

/// A block of exactly `slots` entries: the first entries of `items`, then
/// `fill` in every slot that `items` does not reach.
pub fn first_slots<T: Copy>(items: &Vec<T>, fill: T, slots: usize) -> (block: Vec<T>)
    ensures
        block@.len() == slots,
        forall|i: int|
            0 <= i < slots ==> #[trigger] block@[i] == if i < items@.len() {
                items@[i]
            } else {
                fill
            },
{
    let mut block: Vec<T> = Vec::new();
    let mut i: usize = 0;
    while i < slots
        invariant
            i <= slots,
            block@.len() == i,
            forall|j: int|
                0 <= j < i ==> #[trigger] block@[j] == if j < items@.len() {
                    items@[j]
                } else {
                    fill
                },
        decreases slots - i,
    {
        if i < items.len() {
            block.push(items[i]);
        } else {
            block.push(fill);
        }
        i = i + 1;
    }
    block
}

} // verus!
