//! Region-based spawning: partition the floor cells into Voronoi regions
//! around a handful of randomly drawn seed cells (Manhattan distance, lowest
//! seed wins ties) and hand each region to the spawn-placement collaborator.
//! Every appended placement references a floor cell, and from depth four up
//! a grid with any floor at all receives at least one placement.

use vstd::prelude::*;
use crate::builder::BuilderMap;
use crate::map::TileType;
use crate::reachability::{xof, yof};
use crate::rng::roll_dice;
use crate::spawner::spawn_region;
use crate::BuildError;

verus! {

spec fn abs1(x: int) -> int {
    if x >= 0 {
        x
    } else {
        -x
    }
}

/// Manhattan distance between cells `a` and `b` on a grid of width `w`.
spec fn spec_manhattan(w: int, a: int, b: int) -> int {
    abs1(xof(w, a) - xof(w, b)) + abs1(yof(w, a) - yof(w, b))
}

/// Manhattan distance between the cells `s` and `cell`.
fn manhattan(s: usize, cell: usize, width: i32) -> (d: i64)
    requires
        1 <= width,
        s <= i32::MAX,
        cell <= i32::MAX,
    ensures
        d == spec_manhattan(width as int, s as int, cell as int),
{
    let sx = (s as i32) % width;
    let sy = (s as i32) / width;
    let cx = (cell as i32) % width;
    let cy = (cell as i32) / width;
    let dx = if sx >= cx {
        sx as i64 - cx as i64
    } else {
        cx as i64 - sx as i64
    };
    let dy = if sy >= cy {
        sy as i64 - cy as i64
    } else {
        cy as i64 - sy as i64
    };
    dx + dy
}

/// Index (into `seeds`) of the seed cell nearest to `cell` by Manhattan
/// distance on a grid of width `width`; the lowest index wins ties.
#[verifier::loop_isolation(false)]
fn nearest_seed(seeds: &Vec<usize>, cell: usize, width: i32) -> (r: usize)
    requires
        seeds@.len() >= 1,
        1 <= width,
        cell <= i32::MAX,
        forall|k: int| 0 <= k < seeds@.len() ==> #[trigger] seeds@[k] <= i32::MAX,
    ensures
        r < seeds@.len(),
        forall|k: int|
            0 <= k < seeds@.len() ==> spec_manhattan(
                width as int,
                seeds@[r as int] as int,
                cell as int,
            ) <= spec_manhattan(width as int, #[trigger] seeds@[k] as int, cell as int),
        forall|k: int|
            0 <= k < r ==> spec_manhattan(width as int, #[trigger] seeds@[k] as int, cell as int)
                > spec_manhattan(width as int, seeds@[r as int] as int, cell as int),
{
    let mut best: usize = 0;
    let mut best_d: i64 = manhattan(seeds[0], cell, width);
    let mut k: usize = 1;
    while k < seeds.len()
        invariant
            1 <= k <= seeds@.len(),
            (best as int) < k,
            best_d == spec_manhattan(width as int, seeds@[best as int] as int, cell as int),
            forall|m: int|
                0 <= m < k ==> best_d <= spec_manhattan(
                    width as int,
                    #[trigger] seeds@[m] as int,
                    cell as int,
                ),
            forall|m: int|
                0 <= m < best ==> spec_manhattan(width as int, #[trigger] seeds@[m] as int, cell as int)
                    > best_d,
        decreases seeds@.len() - k,
    {
        let d = manhattan(seeds[k], cell, width);
        if d < best_d {
            best = k;
            best_d = d;
        }
        k = k + 1;
    }
    best
}

pub struct VoronoiSpawning {}

impl VoronoiSpawning {
    pub fn new() -> (b: Box<VoronoiSpawning>) {
        Box::new(VoronoiSpawning {})
    }

    /// Group the floor cells into up to eight seed-centred regions and spawn
    /// along each; every appended placement request is on a floor cell, and
    /// from depth four up some placement is always appended when the grid
    /// holds any floor cell at all.
    #[verifier::loop_isolation(false)]
    pub fn build_map(
        &self,
        rng: &mut rltk::RandomNumberGenerator,
        build_data: &mut BuilderMap,
    ) -> (r: Result<(), BuildError>)
        requires
            old(build_data).wf(),
        ensures
            final(build_data).wf(),
            final(build_data).map == old(build_data).map,
            final(build_data).starting_position == old(build_data).starting_position,
            final(build_data).rooms == old(build_data).rooms,
            final(build_data).corridors == old(build_data).corridors,
            final(build_data).history == old(build_data).history,
            final(build_data).width == old(build_data).width,
            final(build_data).height == old(build_data).height,
            r is Ok,
            final(build_data).spawn_list@.len() >= old(build_data).spawn_list@.len(),
            forall|k: int|
                0 <= k < old(build_data).spawn_list@.len() ==> final(build_data).spawn_list@[k]
                    == old(build_data).spawn_list@[k],
            forall|k: int|
                old(build_data).spawn_list@.len() <= k < final(build_data).spawn_list@.len() ==> {
                    let idx = #[trigger] final(build_data).spawn_list@[k].0;
                    &&& (idx as int) < old(build_data).map.tiles@.len()
                    &&& old(build_data).map.tiles@[idx as int] == TileType::Floor
                },
            (old(build_data).map.depth >= 4 && old(build_data).map.tiles@.len() < i32::MAX && (
            exists|j: int|
                0 <= j < old(build_data).map.tiles@.len() && old(build_data).map.tiles@[j]
                    == TileType::Floor)) ==> final(build_data).spawn_list@.len() > old(
                build_data,
            ).spawn_list@.len(),
    {
        let ghost grow = old(build_data).map.depth >= 4 && old(build_data).map.tiles@.len()
            < i32::MAX && (exists|j: int|
            0 <= j < old(build_data).map.tiles@.len() && old(build_data).map.tiles@[j]
                == TileType::Floor);
        let width = build_data.map.width;
        let depth = build_data.map.depth;
        let n = build_data.map.tiles.len();

        let mut floors: Vec<usize> = Vec::new();
        let mut i: usize = 0;
        while i < n
            invariant
                i <= n,
                n == build_data.map.tiles@.len(),
                floors@.len() <= i,
                forall|k: int|
                    0 <= k < floors@.len() ==> (#[trigger] floors@[k] as int)
                        < build_data.map.tiles@.len() && build_data.map.tiles@[floors@[k] as int]
                        == TileType::Floor,
                (exists|j: int| 0 <= j < i && build_data.map.tiles@[j] == TileType::Floor)
                    ==> floors@.len() >= 1,
            decreases n - i,
        {
            if build_data.map.tiles[i] == TileType::Floor {
                floors.push(i);
            }
            i = i + 1;
        }
        if floors.len() == 0 {
            return Ok(());
        }
        if floors.len() >= (i32::MAX as usize) {
            return Ok(());
        }

        let n_seeds: usize = if floors.len() < 8 {
            floors.len()
        } else {
            8
        };
        let mut seeds: Vec<usize> = Vec::new();
        let mut k: usize = 0;
        while k < n_seeds
            invariant
                k <= n_seeds,
                seeds@.len() == k,
                floors@.len() >= 1,
                floors@.len() < i32::MAX,
                forall|m: int|
                    0 <= m < floors@.len() ==> (#[trigger] floors@[m] as int)
                        < build_data.map.tiles@.len(),
                build_data.map.tiles@.len() <= i32::MAX,
                forall|m: int| 0 <= m < seeds@.len() ==> #[trigger] seeds@[m] <= i32::MAX,
                forall|m: int| 0 <= m < seeds@.len() ==> floors@.contains(#[trigger] seeds@[m]),
            decreases n_seeds - k,
        {
            let pick = roll_dice(rng, 1, floors.len() as i32);
            let seed = floors[(pick - 1) as usize];
            seeds.push(seed);
            k = k + 1;
        }

        let mut region_no: usize = 0;
        while region_no < n_seeds
            invariant
                build_data.wf(),
                build_data.map == old(build_data).map,
                build_data.starting_position == old(build_data).starting_position,
                build_data.rooms == old(build_data).rooms,
                build_data.corridors == old(build_data).corridors,
                build_data.history == old(build_data).history,
                build_data.width == old(build_data).width,
                build_data.height == old(build_data).height,
                seeds@.len() == n_seeds,
                n_seeds >= 1,
                floors@.len() < i32::MAX,
                forall|m: int| 0 <= m < seeds@.len() ==> #[trigger] seeds@[m] <= i32::MAX,
                forall|m: int| 0 <= m < seeds@.len() ==> floors@.contains(#[trigger] seeds@[m]),
                forall|m: int|
                    0 <= m < floors@.len() ==> (#[trigger] floors@[m] as int)
                        < build_data.map.tiles@.len() && build_data.map.tiles@[floors@[m] as int]
                        == TileType::Floor,
                depth == old(build_data).map.depth,
                build_data.spawn_list@.len() >= old(build_data).spawn_list@.len(),
                forall|k2: int|
                    0 <= k2 < old(build_data).spawn_list@.len() ==> build_data.spawn_list@[k2]
                        == old(build_data).spawn_list@[k2],
                forall|k2: int|
                    old(build_data).spawn_list@.len() <= k2 < build_data.spawn_list@.len() ==> {
                        let idx = #[trigger] build_data.spawn_list@[k2].0;
                        &&& (idx as int) < old(build_data).map.tiles@.len()
                        &&& old(build_data).map.tiles@[idx as int] == TileType::Floor
                    },
                (grow && region_no >= 1) ==> build_data.spawn_list@.len() > old(
                    build_data,
                ).spawn_list@.len(),
            decreases n_seeds - region_no,
        {
            let mut region: Vec<usize> = Vec::new();
            let mut f: usize = 0;
            while f < floors.len()
                invariant
                    f <= floors@.len(),
                    floors@.len() < i32::MAX,
                    seeds@.len() == n_seeds,
                    n_seeds >= 1,
                    region_no < n_seeds,
                    forall|m: int| 0 <= m < seeds@.len() ==> #[trigger] seeds@[m] <= i32::MAX,
                    forall|m: int|
                        0 <= m < floors@.len() ==> (#[trigger] floors@[m] as int)
                            < build_data.map.tiles@.len() && build_data.map.tiles@[floors@[m]
                            as int] == TileType::Floor,
                    region@.len() <= f,
                    forall|m: int|
                        0 <= m < region@.len() ==> (#[trigger] region@[m] as int)
                            < build_data.map.tiles@.len() && build_data.map.tiles@[region@[m]
                            as int] == TileType::Floor,
                    (region_no == 0 && exists|m: int| 0 <= m < f && floors@[m] == seeds@[0])
                        ==> region@.len() >= 1,
                decreases floors@.len() - f,
            {
                let cell = floors[f];
                let ns = nearest_seed(&seeds, cell, width);
                proof {
                    if cell == seeds@[0] {
                        assert(spec_manhattan(width as int, seeds@[0] as int, cell as int) == 0);
                        if ns != 0 {
                            assert(spec_manhattan(
                                width as int,
                                seeds@[0] as int,
                                cell as int,
                            ) > spec_manhattan(
                                width as int,
                                seeds@[ns as int] as int,
                                cell as int,
                            ));
                            assert(spec_manhattan(
                                width as int,
                                seeds@[ns as int] as int,
                                cell as int,
                            ) >= 0);
                            assert(false);
                        }
                    }
                }
                if ns == region_no {
                    region.push(cell);
                }
                f = f + 1;
            }
            let ghost pre_len = build_data.spawn_list@.len() as int;
            let ghost region_snap = region@;
            proof {
                if grow && region_no == 0 {
                    assert(floors@.contains(seeds@[0]));
                    assert(region@.len() >= 1);
                }
            }
            spawn_region(rng, &region, depth, &mut build_data.spawn_list);
            proof {
                assert forall|k2: int|
                    old(build_data).spawn_list@.len() <= k2
                        < build_data.spawn_list@.len() implies {
                    let idx = #[trigger] build_data.spawn_list@[k2].0;
                    &&& (idx as int) < old(build_data).map.tiles@.len()
                    &&& old(build_data).map.tiles@[idx as int] == TileType::Floor
                } by {
                    if k2 >= pre_len {
                        assert(region_snap.contains(build_data.spawn_list@[k2].0));
                    }
                }
            }
            region_no = region_no + 1;
        }
        Ok(())
    }
}

} // verus!
