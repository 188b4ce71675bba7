//! Reachability culling: every floor cell that cannot be reached from the
//! starting position is converted to wall, so that afterwards all remaining
//! floor is connected to the start.

use vstd::prelude::*;
use crate::builder::BuilderMap;
use crate::map::TileType;
use crate::reachability::{floor_distances, lemma_cull_keeps_reachability, reachable};
use crate::BuildError;

verus! {

pub struct CullUnreachable {}

impl CullUnreachable {
    pub fn new() -> (b: Box<CullUnreachable>) {
        Box::new(CullUnreachable {})
    }

    /// Run a single-source sweep from the starting position over the floor
    /// graph and wall off every floor cell the sweep did not mark. The
    /// starting cell itself is never removed, and every floor cell that
    /// remains is reachable from the start in the culled grid.
    #[verifier::loop_isolation(false)]
    pub fn build_map(
        &self,
        _rng: &mut rltk::RandomNumberGenerator,
        build_data: &mut BuilderMap,
    ) -> (r: Result<(), BuildError>)
        requires
            old(build_data).wf(),
        ensures
            final(build_data).wf(),
            final(build_data).map.width == old(build_data).map.width,
            final(build_data).map.height == old(build_data).map.height,
            final(build_data).map.depth == old(build_data).map.depth,
            final(build_data).width == old(build_data).width,
            final(build_data).height == old(build_data).height,
            final(build_data).spawn_list == old(build_data).spawn_list,
            final(build_data).starting_position == old(build_data).starting_position,
            final(build_data).rooms == old(build_data).rooms,
            final(build_data).corridors == old(build_data).corridors,
            final(build_data).history == old(build_data).history,
            old(build_data).starting_position is None ==> r == Err::<(), BuildError>(
                BuildError::NoStartingPosition,
            ),
            r is Err ==> *final(build_data) == *old(build_data),
            (old(build_data).starting_position matches Some(p) && !(0 <= p.x < old(
                build_data,
            ).map.width && 0 <= p.y < old(build_data).map.height && old(build_data).map.tiles@[p.y
                * old(build_data).map.width + p.x] == TileType::Floor)) ==> r == Err::<
                (),
                BuildError,
            >(BuildError::InvalidStartingPosition),
            r is Ok <==> (old(build_data).starting_position matches Some(p) && 0 <= p.x < old(
                build_data,
            ).map.width && 0 <= p.y < old(build_data).map.height && old(build_data).map.tiles@[p.y
                * old(build_data).map.width + p.x] == TileType::Floor),
            r is Ok ==> (old(build_data).starting_position matches Some(p) && {
                let w = old(build_data).map.width as int;
                let h = old(build_data).map.height as int;
                let oldt = old(build_data).map.tiles@;
                let t = final(build_data).map.tiles@;
                let s = p.y * w + p.x;
                &&& t.len() == oldt.len()
                &&& forall|i: int|
                    0 <= i < t.len() ==> #[trigger] t[i] == (if oldt[i] == TileType::Floor
                        && !reachable(oldt, w, h, s, i) {
                        TileType::Wall
                    } else {
                        oldt[i]
                    })
                &&& t[s] == TileType::Floor
                &&& forall|i: int|
                    0 <= i < t.len() && #[trigger] t[i] == TileType::Floor ==> reachable(
                        t,
                        w,
                        h,
                        s,
                        i,
                    )
                &&& forall|i: int|
                    0 <= i < t.len() ==> final(build_data).map.blocked@[i] == (oldt[i]
                        != TileType::Floor)
            }),
    {
        let sp = match &build_data.starting_position {
            None => {
                return Err(BuildError::NoStartingPosition);
            },
            Some(p) => *p,
        };
        let width = build_data.map.width;
        let height = build_data.map.height;
        if sp.x < 0 || sp.x >= width || sp.y < 0 || sp.y >= height {
            return Err(BuildError::InvalidStartingPosition);
        }
        let start_idx = build_data.map.xy_idx(sp.x, sp.y);
        if build_data.map.tiles[start_idx] != TileType::Floor {
            return Err(BuildError::InvalidStartingPosition);
        }
        let ghost w = width as int;
        let ghost h = height as int;
        let ghost s = start_idx as int;
        let ghost oldt = build_data.map.tiles@;
        build_data.map.populate_blocked();
        let dist = floor_distances(&build_data.map.tiles, width, height, start_idx);
        let n = build_data.map.tiles.len();
        let mut i: usize = 0;
        while i < n
            invariant
                i <= n,
                n == build_data.map.tiles@.len(),
                build_data.map.tiles@.len() == oldt.len(),
                forall|k: int|
                    0 <= k < i ==> #[trigger] build_data.map.tiles@[k] == (if oldt[k]
                        == TileType::Floor && !reachable(oldt, w, h, s, k) {
                        TileType::Wall
                    } else {
                        oldt[k]
                    }),
                forall|k: int| i <= k < n ==> #[trigger] build_data.map.tiles@[k] == oldt[k],
                build_data.map.wf(),
                build_data.map.width == old(build_data).map.width,
                build_data.map.height == old(build_data).map.height,
                build_data.map.depth == old(build_data).map.depth,
                build_data.map.blocked@.len() == n,
                forall|k: int|
                    0 <= k < n ==> build_data.map.blocked@[k] == (oldt[k] != TileType::Floor),
                build_data.spawn_list == old(build_data).spawn_list,
                build_data.starting_position == old(build_data).starting_position,
                build_data.rooms == old(build_data).rooms,
                build_data.corridors == old(build_data).corridors,
                build_data.history == old(build_data).history,
                build_data.width == old(build_data).width,
                build_data.height == old(build_data).height,
            decreases n - i,
        {
            if build_data.map.tiles[i] == TileType::Floor && dist[i] < 0 {
                build_data.map.tiles[i] = TileType::Wall;
            }
            i = i + 1;
        }
        proof {
            lemma_cull_keeps_reachability(oldt, build_data.map.tiles@, w, h, s);
        }
        Ok(())
    }
}

} // verus!
