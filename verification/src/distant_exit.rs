//! Distance-based exit placement: the exit stairs go on the reachable floor
//! cell whose sweep mark is greatest (first in scan order on ties), which is
//! never the starting cell while any other reachable floor cell exists.

use vstd::prelude::*;
use crate::builder::BuilderMap;
use crate::map::TileType;
use crate::reachability::{floor_distances, reachable};
use crate::BuildError;

verus! {

pub struct DistantExit {}

impl DistantExit {
    pub fn new() -> (b: Box<DistantExit>) {
        Box::new(DistantExit {})
    }

    /// Sweep from the starting position and replace the most distant
    /// reachable floor cell with down-stairs. The contract guarantees that
    /// exactly one cell changes, that it was a reachable floor cell, and
    /// that it is not the starting cell as long as any other reachable
    /// floor cell exists.
    #[verifier::loop_isolation(false)]
    pub fn build_map(
        &self,
        _rng: &mut rltk::RandomNumberGenerator,
        build_data: &mut BuilderMap,
    ) -> (r: Result<(), BuildError>)
        requires
            old(build_data).wf(),
        ensures
            final(build_data).wf(),
            final(build_data).map.width == old(build_data).map.width,
            final(build_data).map.height == old(build_data).map.height,
            final(build_data).map.depth == old(build_data).map.depth,
            final(build_data).map.blocked == old(build_data).map.blocked,
            final(build_data).width == old(build_data).width,
            final(build_data).height == old(build_data).height,
            final(build_data).spawn_list == old(build_data).spawn_list,
            final(build_data).starting_position == old(build_data).starting_position,
            final(build_data).rooms == old(build_data).rooms,
            final(build_data).corridors == old(build_data).corridors,
            !crate::SHOW_MAPGEN_VISUALIZER ==> final(build_data).history == old(
                build_data,
            ).history,
            old(build_data).starting_position is None ==> r == Err::<(), BuildError>(
                BuildError::NoStartingPosition,
            ),
            r is Err ==> *final(build_data) == *old(build_data),
            (old(build_data).starting_position matches Some(p) && !(0 <= p.x < old(
                build_data,
            ).map.width && 0 <= p.y < old(build_data).map.height && old(build_data).map.tiles@[p.y
                * old(build_data).map.width + p.x] == TileType::Floor)) ==> r == Err::<
                (),
                BuildError,
            >(BuildError::InvalidStartingPosition),
            r is Ok <==> (old(build_data).starting_position matches Some(p) && 0 <= p.x < old(
                build_data,
            ).map.width && 0 <= p.y < old(build_data).map.height && old(build_data).map.tiles@[p.y
                * old(build_data).map.width + p.x] == TileType::Floor),
            r is Ok ==> (old(build_data).starting_position matches Some(p) && exists|e: int|
            #![trigger old(build_data).map.tiles@.update(e, TileType::DownStairs)]
            {
                let w = old(build_data).map.width as int;
                let h = old(build_data).map.height as int;
                let oldt = old(build_data).map.tiles@;
                let s = p.y * w + p.x;
                &&& 0 <= e < oldt.len()
                &&& oldt[e] == TileType::Floor
                &&& reachable(oldt, w, h, s, e)
                &&& final(build_data).map.tiles@ == oldt.update(e, TileType::DownStairs)
                &&& ((exists|j: int|
                    0 <= j < oldt.len() && j != s && oldt[j] == TileType::Floor && reachable(
                        oldt,
                        w,
                        h,
                        s,
                        j,
                    )) ==> e != s)
            }),
    {
        let sp = match &build_data.starting_position {
            None => {
                return Err(BuildError::NoStartingPosition);
            },
            Some(p) => *p,
        };
        let width = build_data.map.width;
        let height = build_data.map.height;
        if sp.x < 0 || sp.x >= width || sp.y < 0 || sp.y >= height {
            return Err(BuildError::InvalidStartingPosition);
        }
        let start_idx = build_data.map.xy_idx(sp.x, sp.y);
        if build_data.map.tiles[start_idx] != TileType::Floor {
            return Err(BuildError::InvalidStartingPosition);
        }
        let ghost w = width as int;
        let ghost h = height as int;
        let ghost s = start_idx as int;
        let ghost oldt = build_data.map.tiles@;
        let dist = floor_distances(&build_data.map.tiles, width, height, start_idx);
        let n = build_data.map.tiles.len();
        let mut best_idx: usize = start_idx;
        let mut best_d: i32 = 0;
        let mut i: usize = 0;
        while i < n
            invariant
                i <= n,
                n == build_data.map.tiles@.len(),
                (best_idx as int) < n,
                build_data.map.tiles@[best_idx as int] == TileType::Floor,
                dist@[best_idx as int] >= 0,
                best_d == dist@[best_idx as int],
                forall|j: int|
                    0 <= j < i && build_data.map.tiles@[j] == TileType::Floor && #[trigger] dist@[j]
                        >= 0 ==> dist@[j] <= best_d,
            decreases n - i,
        {
            if build_data.map.tiles[i] == TileType::Floor && dist[i] > best_d {
                best_idx = i;
                best_d = dist[i];
            }
            i = i + 1;
        }
        let ghost e = best_idx as int;
        build_data.map.tiles[best_idx] = TileType::DownStairs;
        build_data.take_snapshot();
        proof {
            assert(build_data.map.tiles@ =~= old(build_data).map.tiles@.update(
                e,
                TileType::DownStairs,
            ));
            if exists|j: int|
                0 <= j < oldt.len() && j != s && oldt[j] == TileType::Floor && reachable(
                    oldt,
                    w,
                    h,
                    s,
                    j,
                ) {
                let j = choose|j: int|
                    0 <= j < oldt.len() && j != s && oldt[j] == TileType::Floor && reachable(
                        oldt,
                        w,
                        h,
                        s,
                        j,
                    );
                assert(dist@[j] >= 0);
                assert(dist@[j] != 0);
                assert(best_d >= 1);
            }
        }
        Ok(())
    }
}

} // verus!
