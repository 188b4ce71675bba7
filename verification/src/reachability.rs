//! The grid as a graph: floor cells are nodes, orthogonally or diagonally
//! adjacent floor cells are connected, everything else is impassable.
//! Provides the reachability model used by the culling and exit stages and a
//! verified single-source sweep over it.

use vstd::prelude::*;
use vstd::arithmetic::div_mod::{
    group_mod_properties, lemma_fundamental_div_mod, lemma_fundamental_div_mod_converse_div,
    lemma_fundamental_div_mod_converse_mod, lemma_multiply_divide_lt,
};
use vstd::set_lib::{lemma_int_range, lemma_len_subset, set_int_range};
use crate::map::TileType;

verus! {

/// Column of cell index `i` on a grid of width `w`.
pub open spec fn xof(w: int, i: int) -> int {
    i % w
}

/// Row of cell index `i` on a grid of width `w`.
pub open spec fn yof(w: int, i: int) -> int {
    i / w
}

pub open spec fn in_grid(w: int, h: int, i: int) -> bool {
    0 <= i < w * h
}

/// Cell `i` exists and is a floor cell.
pub open spec fn is_floor(tiles: Seq<TileType>, i: int) -> bool {
    0 <= i < tiles.len() && tiles[i] == TileType::Floor
}

/// Cells `i` and `j` are distinct and their coordinates differ by at most
/// one in each direction: orthogonal or diagonal neighbours.
pub open spec fn adjacent(w: int, h: int, i: int, j: int) -> bool {
    &&& in_grid(w, h, i)
    &&& in_grid(w, h, j)
    &&& i != j
    &&& -1 <= xof(w, i) - xof(w, j) <= 1
    &&& -1 <= yof(w, i) - yof(w, j) <= 1
}

/// `p` is a walk over floor cells: nonempty, every cell a floor cell, and
/// consecutive cells adjacent.
pub open spec fn is_floor_path(tiles: Seq<TileType>, w: int, h: int, p: Seq<int>) -> bool {
    &&& p.len() >= 1
    &&& forall|k: int| 0 <= k < p.len() ==> is_floor(tiles, #[trigger] p[k])
    &&& forall|k: int| 0 < k < p.len() ==> adjacent(w, h, p[k - 1], #[trigger] p[k])
}

/// Some walk over floor cells leads from `s` to `t`.
pub open spec fn reachable(tiles: Seq<TileType>, w: int, h: int, s: int, t: int) -> bool {
    exists|p: Seq<int>| is_floor_path(tiles, w, h, p) && p.first() == s && p.last() == t
}

pub proof fn lemma_reachable_refl(tiles: Seq<TileType>, w: int, h: int, s: int)
    requires
        is_floor(tiles, s),
    ensures
        reachable(tiles, w, h, s, s),
{
    let p = seq![s];
    assert(is_floor_path(tiles, w, h, p));
    assert(p.first() == s && p.last() == s);
}

pub proof fn lemma_reachable_step(tiles: Seq<TileType>, w: int, h: int, s: int, a: int, b: int)
    requires
        reachable(tiles, w, h, s, a),
        adjacent(w, h, a, b),
        is_floor(tiles, b),
    ensures
        reachable(tiles, w, h, s, b),
{
    let p = choose|p: Seq<int>|
        is_floor_path(tiles, w, h, p) && p.first() == s && p.last() == a;
    let q = p.push(b);
    assert(q.last() == b);
    assert(q.first() == s);
    assert forall|k: int| 0 <= k < q.len() implies is_floor(tiles, #[trigger] q[k]) by {
        if k < p.len() {
            assert(q[k] == p[k]);
        }
    }
    assert forall|k: int| 0 < k < q.len() implies adjacent(w, h, q[k - 1], #[trigger] q[k]) by {
        if k < p.len() {
            assert(q[k] == p[k] && q[k - 1] == p[k - 1]);
        } else {
            assert(q[k - 1] == p[p.len() - 1] && q[k] == b);
        }
    }
    assert(is_floor_path(tiles, w, h, q));
}

/// Every walk can be followed: its start reaches its end, and its end its start.
pub proof fn lemma_path_extend(tiles: Seq<TileType>, w: int, h: int, s: int, p: Seq<int>)
    requires
        is_floor_path(tiles, w, h, p),
        reachable(tiles, w, h, s, p.first()),
    ensures
        reachable(tiles, w, h, s, p.last()),
    decreases p.len(),
{
    if p.len() > 1 {
        let q = p.drop_last();
        assert forall|k: int| 0 <= k < q.len() implies is_floor(tiles, #[trigger] q[k]) by {
            assert(q[k] == p[k]);
        }
        assert forall|k: int| 0 < k < q.len() implies adjacent(w, h, q[k - 1], #[trigger] q[k]) by {
            assert(q[k] == p[k] && q[k - 1] == p[k - 1]);
        }
        assert(is_floor_path(tiles, w, h, q));
        assert(q.first() == p.first());
        lemma_path_extend(tiles, w, h, s, q);
        assert(q.last() == p[p.len() - 2]);
        lemma_reachable_step(tiles, w, h, s, p[p.len() - 2], p[p.len() - 1]);
    }
}

pub proof fn lemma_reachable_trans(tiles: Seq<TileType>, w: int, h: int, s: int, m: int, t: int)
    requires
        reachable(tiles, w, h, s, m),
        reachable(tiles, w, h, m, t),
    ensures
        reachable(tiles, w, h, s, t),
{
    let p = choose|p: Seq<int>|
        is_floor_path(tiles, w, h, p) && p.first() == m && p.last() == t;
    lemma_path_extend(tiles, w, h, s, p);
}

proof fn lemma_path_sym(tiles: Seq<TileType>, w: int, h: int, p: Seq<int>)
    requires
        is_floor_path(tiles, w, h, p),
    ensures
        reachable(tiles, w, h, p.last(), p.first()),
    decreases p.len(),
{
    if p.len() == 1 {
        lemma_reachable_refl(tiles, w, h, p.first());
    } else {
        let q = p.drop_last();
        assert forall|k: int| 0 <= k < q.len() implies is_floor(tiles, #[trigger] q[k]) by {
            assert(q[k] == p[k]);
        }
        assert forall|k: int| 0 < k < q.len() implies adjacent(w, h, q[k - 1], #[trigger] q[k]) by {
            assert(q[k] == p[k] && q[k - 1] == p[k - 1]);
        }
        assert(is_floor_path(tiles, w, h, q));
        lemma_path_sym(tiles, w, h, q);
        // from the end of p, one step back onto the end of q, then follow q
        let a = p.last();
        let b = q.last();
        assert(adjacent(w, h, b, a));
        assert(adjacent(w, h, a, b));
        lemma_reachable_refl(tiles, w, h, a);
        lemma_reachable_step(tiles, w, h, a, a, b);
        lemma_reachable_trans(tiles, w, h, a, b, q.first());
    }
}

pub proof fn lemma_reachable_sym(tiles: Seq<TileType>, w: int, h: int, s: int, t: int)
    requires
        reachable(tiles, w, h, s, t),
    ensures
        reachable(tiles, w, h, t, s),
{
    let p = choose|p: Seq<int>|
        is_floor_path(tiles, w, h, p) && p.first() == s && p.last() == t;
    lemma_path_sym(tiles, w, h, p);
}

/// Every cell of a walk is reachable from the walk's start.
pub proof fn lemma_path_prefix(tiles: Seq<TileType>, w: int, h: int, p: Seq<int>, k: int)
    requires
        is_floor_path(tiles, w, h, p),
        0 <= k < p.len(),
    ensures
        reachable(tiles, w, h, p.first(), p[k]),
{
    let q = p.subrange(0, k + 1);
    assert forall|m: int| 0 <= m < q.len() implies is_floor(tiles, #[trigger] q[m]) by {
        assert(q[m] == p[m]);
    }
    assert forall|m: int| 0 < m < q.len() implies adjacent(w, h, q[m - 1], #[trigger] q[m]) by {
        assert(q[m] == p[m] && q[m - 1] == p[m - 1]);
    }
    assert(is_floor_path(tiles, w, h, q));
    assert(q.first() == p.first() && q.last() == p[k]);
}

/// Culling the floor cells that are unreachable from `s` does not disconnect
/// anything: every kept floor cell is still reachable in the culled grid.
pub proof fn lemma_cull_keeps_reachability(
    oldt: Seq<TileType>,
    t: Seq<TileType>,
    w: int,
    h: int,
    s: int,
)
    requires
        t.len() == oldt.len(),
        forall|i: int|
            0 <= i < t.len() ==> t[i] == (if oldt[i] == TileType::Floor && !reachable(
                oldt,
                w,
                h,
                s,
                i,
            ) {
                TileType::Wall
            } else {
                oldt[i]
            }),
    ensures
        forall|i: int|
            0 <= i < t.len() && #[trigger] t[i] == TileType::Floor ==> reachable(t, w, h, s, i),
{
    assert forall|i: int|
        0 <= i < t.len() && #[trigger] t[i] == TileType::Floor implies reachable(t, w, h, s, i) by {
        assert(oldt[i] == TileType::Floor && reachable(oldt, w, h, s, i));
        let p = choose|p: Seq<int>|
            is_floor_path(oldt, w, h, p) && p.first() == s && p.last() == i;
        assert forall|k: int| 0 <= k < p.len() implies is_floor(t, #[trigger] p[k]) by {
            lemma_path_prefix(oldt, w, h, p, k);
            assert(is_floor(oldt, p[k]));
        }
        assert(is_floor_path(t, w, h, p));
    }
}

/// Placing a coordinate pair on the grid: its row-major index is in range and
/// decomposes back into the same coordinates.
pub proof fn lemma_grid_idx(w: int, h: int, x: int, y: int)
    requires
        1 <= w,
        1 <= h,
        0 <= x < w,
        0 <= y < h,
    ensures
        in_grid(w, h, y * w + x),
        xof(w, y * w + x) == x,
        yof(w, y * w + x) == y,
{
    assert(0 <= y * w + x < w * h) by (nonlinear_arith)
        requires
            1 <= w,
            1 <= h,
            0 <= x < w,
            0 <= y < h,
    ;
    lemma_fundamental_div_mod_converse_div(y * w + x, w, y, x);
    lemma_fundamental_div_mod_converse_mod(y * w + x, w, y, x);
}

/// The converse: every in-range index decomposes into in-range coordinates.
pub proof fn lemma_idx_grid(w: int, h: int, i: int)
    requires
        1 <= w,
        1 <= h,
        in_grid(w, h, i),
    ensures
        0 <= xof(w, i) < w,
        0 <= yof(w, i) < h,
        i == yof(w, i) * w + xof(w, i),
{
    broadcast use group_mod_properties;

    lemma_fundamental_div_mod(i, w);
    assert(i == w * (i / w) + i % w);
    assert(yof(w, i) * w == w * (i / w)) by (nonlinear_arith);
    lemma_multiply_divide_lt(i, w, h);
    assert(i / w >= 0) by (nonlinear_arith)
        requires
            i >= 0,
            w >= 1,
    ;
}

/// The eight neighbour offsets in scan order.
pub open spec fn spec_offset(k: int) -> (int, int) {
    if k == 0 {
        (-1, -1)
    } else if k == 1 {
        (0, -1)
    } else if k == 2 {
        (1, -1)
    } else if k == 3 {
        (-1, 0)
    } else if k == 4 {
        (1, 0)
    } else if k == 5 {
        (-1, 1)
    } else if k == 6 {
        (0, 1)
    } else {
        (1, 1)
    }
}

fn offset(k: usize) -> (r: (i32, i32))
    requires
        k < 8,
    ensures
        r.0 as int == spec_offset(k as int).0,
        r.1 as int == spec_offset(k as int).1,
{
    match k {
        0 => (-1, -1),
        1 => (0, -1),
        2 => (1, -1),
        3 => (-1, 0),
        4 => (1, 0),
        5 => (-1, 1),
        6 => (0, 1),
        _ => (1, 1),
    }
}

/// Every adjacency is realised by one of the eight offsets.
pub proof fn lemma_adjacent_offset(w: int, h: int, i: int, j: int)
    requires
        1 <= w,
        1 <= h,
        adjacent(w, h, i, j),
    ensures
        exists|k: int|
            0 <= k < 8 && xof(w, j) == xof(w, i) + spec_offset(k).0 && yof(w, j) == yof(w, i)
                + spec_offset(k).1,
{
    lemma_idx_grid(w, h, i);
    lemma_idx_grid(w, h, j);
    let dx = xof(w, j) - xof(w, i);
    let dy = yof(w, j) - yof(w, i);
    if dx == 0 && dy == 0 {
        assert(i == j);
        assert(false);
    }
    let k: int = if dx == -1 && dy == -1 {
        0
    } else if dx == 0 && dy == -1 {
        1
    } else if dx == 1 && dy == -1 {
        2
    } else if dx == -1 && dy == 0 {
        3
    } else if dx == 1 && dy == 0 {
        4
    } else if dx == -1 && dy == 1 {
        5
    } else if dx == 0 && dy == 1 {
        6
    } else {
        7
    };
    assert(0 <= k < 8 && xof(w, j) == xof(w, i) + spec_offset(k).0 && yof(w, j) == yof(w, i)
        + spec_offset(k).1);
}

/// A sequence of distinct indices below `n` has at most `n` entries.
proof fn lemma_distinct_bound(q: Seq<usize>, n: int)
    requires
        q.no_duplicates(),
        forall|k: int| 0 <= k < q.len() ==> (#[trigger] q[k] as int) < n,
        0 <= n,
    ensures
        q.len() <= n,
{
    broadcast use vstd::set::group_set_axioms;

    let f = |x: usize| x as int;
    let qi = q.map_values(f);
    q.lemma_no_duplicates_injective(f);
    qi.unique_seq_to_set();
    assert forall|x: int| qi.to_set().contains(x) implies set_int_range(0, n).contains(x) by {
        let k = choose|k: int| 0 <= k < qi.len() && qi[k] == x;
        assert(q[k] as int == x);
    }
    assert(qi.to_set().subset_of(set_int_range(0, n)));
    lemma_int_range(0, n);
    lemma_len_subset(qi.to_set(), set_int_range(0, n));
}

/// If the visited set contains the walk's start and is closed under
/// adjacency onto floor cells, it contains the walk's end.
proof fn lemma_closed_path(tiles: Seq<TileType>, w: int, h: int, d: Seq<i32>, p: Seq<int>)
    requires
        d.len() == tiles.len(),
        forall|a: int, b: int|
            0 <= a < d.len() && d[a] >= 0 && #[trigger] adjacent(w, h, a, b) && is_floor(tiles, b)
                ==> d[b] >= 0,
        is_floor_path(tiles, w, h, p),
        0 <= p.first() < d.len(),
        d[p.first()] >= 0,
    ensures
        0 <= p.last() < d.len() && d[p.last()] >= 0,
    decreases p.len(),
{
    if p.len() > 1 {
        let q = p.drop_last();
        assert forall|k: int| 0 <= k < q.len() implies is_floor(tiles, #[trigger] q[k]) by {
            assert(q[k] == p[k]);
        }
        assert forall|k: int| 0 < k < q.len() implies adjacent(w, h, q[k - 1], #[trigger] q[k]) by {
            assert(q[k] == p[k] && q[k - 1] == p[k - 1]);
        }
        assert(is_floor_path(tiles, w, h, q));
        lemma_closed_path(tiles, w, h, d, q);
        assert(adjacent(w, h, p[p.len() - 2], p[p.len() - 1]));
    }
}

/// The invariant of the sweep: `d` marks (with a nonnegative value) a set of
/// floor cells that are reachable from `s`, `q` lists exactly the marked
/// cells without repetition, and only `s` is marked zero.
spec fn sweep_inv(tiles: Seq<TileType>, w: int, h: int, s: int, d: Seq<i32>, q: Seq<usize>) -> bool {
    &&& d.len() == tiles.len()
    &&& tiles.len() == w * h
    &&& 1 <= w
    &&& 1 <= h
    &&& w * h <= i32::MAX
    &&& 0 <= s < d.len()
    &&& d[s] == 0
    &&& is_floor(tiles, s)
    &&& q.no_duplicates()
    &&& forall|k: int| 0 <= k < q.len() ==> (#[trigger] q[k] as int) < d.len()
    &&& forall|k: int| 0 <= k < q.len() ==> d[#[trigger] q[k] as int] >= 0
    &&& forall|k: int| 0 <= k < q.len() ==> is_floor(tiles, #[trigger] q[k] as int)
    &&& forall|i: int|
        0 <= i < d.len() && #[trigger] d[i] >= 0 ==> exists|k: int|
            0 <= k < q.len() && #[trigger] q[k] as int == i
    &&& forall|i: int| 0 <= i < d.len() && i != s ==> #[trigger] d[i] != 0
    &&& forall|i: int|
        0 <= i < d.len() && #[trigger] d[i] >= 0 ==> is_floor(tiles, i) && reachable(
            tiles,
            w,
            h,
            s,
            i,
        )
    &&& forall|i: int| 0 <= i < d.len() ==> #[trigger] d[i] >= -1
}

/// One of the eight neighbours of `c` is settled: if a floor cell sits at
/// that offset, it is marked.
spec fn neighbor_done(tiles: Seq<TileType>, w: int, h: int, d: Seq<i32>, c: int, m: int) -> bool {
    forall|j: int|
        0 <= j < d.len() && #[trigger] adjacent(w, h, c, j) && is_floor(tiles, j) && xof(w, j)
            == xof(w, c) + spec_offset(m).0 && yof(w, j) == yof(w, c) + spec_offset(m).1 ==> d[j]
            >= 0
}

/// Mark every unmarked floor neighbour of `cur` and append it to the queue.
fn visit_neighbors(
    tiles: &Vec<TileType>,
    width: i32,
    height: i32,
    Ghost(s): Ghost<int>,
    dist: &mut Vec<i32>,
    queue: &mut Vec<usize>,
    cur: usize,
)
    requires
        sweep_inv(tiles@, width as int, height as int, s, old(dist)@, old(queue)@),
        (cur as int) < tiles@.len(),
        old(dist)@[cur as int] >= 0,
        is_floor(tiles@, cur as int),
    ensures
        sweep_inv(tiles@, width as int, height as int, s, final(dist)@, final(queue)@),
        final(dist)@.len() == old(dist)@.len(),
        forall|i: int|
            0 <= i < old(dist)@.len() && old(dist)@[i] >= 0 ==> final(dist)@[i] == old(dist)@[i],
        forall|j: int|
            #[trigger] adjacent(width as int, height as int, cur as int, j) && is_floor(tiles@, j)
                ==> final(dist)@[j] >= 0,
        old(queue)@.is_prefix_of(final(queue)@),
{
    let ghost w = width as int;
    let ghost h = height as int;
    let ghost c = cur as int;
    proof {
        lemma_idx_grid(w, h, c);
    }
    let x = (cur as i32) % width;
    let y = (cur as i32) / width;
    let dcur = dist[cur];
    let dnext = if dcur < i32::MAX {
        dcur + 1
    } else {
        dcur
    };
    let mut k: usize = 0;
    while k < 8
        invariant
            sweep_inv(tiles@, w, h, s, dist@, queue@),
            w == width as int,
            h == height as int,
            c == cur as int,
            0 <= c < tiles@.len(),
            x as int == xof(w, c),
            y as int == yof(w, c),
            0 <= x < width,
            0 <= y < height,
            dnext >= 1,
            is_floor(tiles@, c),
            dist@[c] >= 0,
            dist@.len() == old(dist)@.len(),
            forall|i: int|
                0 <= i < old(dist)@.len() && old(dist)@[i] >= 0 ==> dist@[i] == old(dist)@[i],
            old(queue)@.is_prefix_of(queue@),
            k <= 8,
            forall|m: int| 0 <= m < k ==> neighbor_done(tiles@, w, h, dist@, c, m),
        decreases 8 - k,
    {
        let (dx, dy) = offset(k);
        let nx = x + dx;
        let ny = y + dy;
        if 0 <= nx && nx < width && 0 <= ny && ny < height {
            proof {
                lemma_grid_idx(w, h, nx as int, ny as int);
                assert((ny as int) * w + (nx as int) < w * h);
                assert((ny as usize) * (width as usize) + (nx as usize) < 0x4000_0000_0000_0000)
                    by (nonlinear_arith)
                    requires
                        0 <= ny < height,
                        0 <= nx < width,
                        0 < width <= i32::MAX,
                        0 < height <= i32::MAX,
                ;
            }
            let nidx = (ny as usize) * (width as usize) + (nx as usize);
            let ghost ni = nidx as int;
            proof {
                assert(ni == (ny as int) * w + (nx as int));
                assert(xof(w, ni) == nx as int && yof(w, ni) == ny as int);
            }
            if tiles[nidx] == TileType::Floor && dist[nidx] < 0 {
                proof {
                    assert(!(spec_offset(k as int).0 == 0 && spec_offset(k as int).1 == 0));
                    assert(c != ni);
                    assert(adjacent(w, h, c, ni));
                    assert(reachable(tiles@, w, h, s, c));
                    lemma_reachable_step(tiles@, w, h, s, c, ni);
                }
                let ghost old_d = dist@;
                let ghost old_q = queue@;
                dist[nidx] = dnext;
                queue.push(nidx);
                proof {
                    assert(queue@ == old_q.push(nidx));
                    assert forall|i: int|
                        0 <= i < dist@.len() && #[trigger] dist@[i] >= 0 implies exists|kk: int|
                        0 <= kk < queue@.len() && #[trigger] queue@[kk] as int == i by {
                        if i == ni {
                            assert(queue@[queue@.len() - 1] as int == i);
                        } else {
                            assert(old_d[i] >= 0);
                            let kk = choose|kk: int|
                                0 <= kk < old_q.len() && #[trigger] old_q[kk] as int == i;
                            assert(queue@[kk] as int == i);
                        }
                    }
                    assert(queue@.no_duplicates()) by {
                        assert(forall|kk: int|
                            0 <= kk < old_q.len() ==> (#[trigger] old_q[kk] as int) != ni);
                    }
                    assert forall|m: int| 0 <= m < k implies neighbor_done(
                        tiles@,
                        w,
                        h,
                        dist@,
                        c,
                        m,
                    ) by {
                        assert(neighbor_done(tiles@, w, h, old_d, c, m));
                        assert forall|j: int|
                            0 <= j < dist@.len() && #[trigger] adjacent(w, h, c, j) && is_floor(
                                tiles@,
                                j,
                            ) && xof(w, j) == xof(w, c) + spec_offset(m).0 && yof(w, j) == yof(
                            w,
                            c,
                        ) + spec_offset(m).1 implies dist@[j] >= 0 by {
                            if j != ni {
                                assert(dist@[j] == old_d[j]);
                            }
                        }
                    }
                }
            }
            proof {
                assert forall|j: int|
                    0 <= j < dist@.len() && #[trigger] adjacent(w, h, c, j) && is_floor(tiles@, j)
                        && xof(w, j) == xof(w, c) + spec_offset(k as int).0 && yof(w, j) == yof(
                        w,
                        c,
                    ) + spec_offset(k as int).1 implies dist@[j] >= 0 by {
                    lemma_idx_grid(w, h, j);
                    assert(j == ni);
                }
            }
        } else {
            proof {
                assert forall|j: int|
                    0 <= j < dist@.len() && #[trigger] adjacent(w, h, c, j) && is_floor(tiles@, j)
                        && xof(w, j) == xof(w, c) + spec_offset(k as int).0 && yof(w, j) == yof(
                        w,
                        c,
                    ) + spec_offset(k as int).1 implies dist@[j] >= 0 by {
                    lemma_idx_grid(w, h, j);
                }
            }
        }
        k = k + 1;
    }
    proof {
        assert forall|j: int|
            #[trigger] adjacent(w, h, c, j) && is_floor(tiles@, j) implies dist@[j] >= 0 by {
            lemma_adjacent_offset(w, h, c, j);
            let m = choose|m: int|
                0 <= m < 8 && xof(w, j) == xof(w, c) + spec_offset(m).0 && yof(w, j) == yof(w, c)
                    + spec_offset(m).1;
            assert(neighbor_done(tiles@, w, h, dist@, c, m));
        }
    }
}

/// Single-source sweep over the floor graph from `start`.
///
/// Returns one entry per cell: a nonnegative mark exactly for the cells
/// reachable from `start`, with `start` itself the only cell marked zero.
pub fn floor_distances(tiles: &Vec<TileType>, width: i32, height: i32, start: usize) -> (dist: Vec<
    i32,
>)
    requires
        1 <= width,
        1 <= height,
        width * height <= i32::MAX,
        tiles@.len() == width * height,
        (start as int) < tiles@.len(),
        tiles@[start as int] == TileType::Floor,
    ensures
        dist@.len() == tiles@.len(),
        forall|i: int|
            0 <= i < dist@.len() ==> ((#[trigger] dist@[i] >= 0) <==> reachable(
                tiles@,
                width as int,
                height as int,
                start as int,
                i,
            )),
        dist@[start as int] == 0,
        forall|i: int| 0 <= i < dist@.len() && i != start ==> #[trigger] dist@[i] != 0,
{
    let ghost w = width as int;
    let ghost h = height as int;
    let ghost s = start as int;
    let n = tiles.len();
    let mut dist: Vec<i32> = Vec::new();
    let mut i: usize = 0;
    while i < n
        invariant
            i <= n,
            dist@.len() == i,
            forall|k: int| 0 <= k < i ==> dist@[k] == -1,
        decreases n - i,
    {
        dist.push(-1);
        i = i + 1;
    }
    dist[start] = 0;
    let mut queue: Vec<usize> = Vec::new();
    queue.push(start);
    let mut head: usize = 0;
    proof {
        lemma_reachable_refl(tiles@, w, h, s);
        assert(queue@[0] as int == s);
        assert forall|i: int|
            0 <= i < dist@.len() && #[trigger] dist@[i] >= 0 implies exists|k: int|
            0 <= k < queue@.len() && #[trigger] queue@[k] as int == i by {
            assert(i == s);
            assert(queue@[0] as int == i);
        }
        assert(sweep_inv(tiles@, w, h, s, dist@, queue@));
    }
    while head < queue.len()
        invariant
            sweep_inv(tiles@, w, h, s, dist@, queue@),
            w == width as int,
            h == height as int,
            s == start as int,
            head <= queue@.len(),
            forall|k: int, j: int|
                0 <= k < head && #[trigger] adjacent(w, h, queue@[k] as int, j) && is_floor(
                    tiles@,
                    j,
                ) ==> dist@[j] >= 0,
        decreases w * h - head,
    {
        proof {
            lemma_distinct_bound(queue@, w * h);
        }
        let cur = queue[head];
        let ghost old_q = queue@;
        visit_neighbors(tiles, width, height, Ghost(s), &mut dist, &mut queue, cur);
        proof {
            assert(old_q.is_prefix_of(queue@));
            assert forall|k: int, j: int|
                0 <= k < head + 1 && #[trigger] adjacent(w, h, queue@[k] as int, j) && is_floor(
                    tiles@,
                    j,
                ) implies dist@[j] >= 0 by {
                if k < head {
                    assert(queue@[k] == old_q[k]);
                } else {
                    assert(queue@[k] == cur);
                }
            }
        }
        head = head + 1;
    }
    proof {
        lemma_distinct_bound(queue@, w * h);
        assert forall|a: int, b: int|
            0 <= a < dist@.len() && dist@[a] >= 0 && #[trigger] adjacent(w, h, a, b) && is_floor(
                tiles@,
                b,
            ) implies dist@[b] >= 0 by {
            let k = choose|k: int| 0 <= k < queue@.len() && #[trigger] queue@[k] as int == a;
        }
        assert forall|t: int|
            0 <= t < dist@.len() && reachable(tiles@, w, h, s, t) implies dist@[t] >= 0 by {
            let p = choose|p: Seq<int>|
                is_floor_path(tiles@, w, h, p) && p.first() == s && p.last() == t;
            lemma_closed_path(tiles@, w, h, dist@, p);
        }
    }
    dist
}

} // verus!
