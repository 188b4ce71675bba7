//! Room-based stairs placement: the exit goes at the centre of the last room
//! in the room list, whatever order the upstream room stages established.

use vstd::prelude::*;
use crate::builder::BuilderMap;
use crate::geometry::Rect;
use crate::map::TileType;
use crate::BuildError;

verus! {

pub struct RoomBasedStairs {}

impl RoomBasedStairs {
    pub fn new() -> (b: Box<RoomBasedStairs>) {
        Box::new(RoomBasedStairs {})
    }

    /// Place the down-stairs exactly at the centre of the last room of the
    /// room list; fails when no non-empty room list exists or the last
    /// room's centre lies outside the grid.
    pub fn build_map(
        &self,
        _rng: &mut rltk::RandomNumberGenerator,
        build_data: &mut BuilderMap,
    ) -> (r: Result<(), BuildError>)
        requires
            old(build_data).wf(),
        ensures
            final(build_data).wf(),
            final(build_data).map.width == old(build_data).map.width,
            final(build_data).map.height == old(build_data).map.height,
            final(build_data).map.depth == old(build_data).map.depth,
            final(build_data).map.blocked == old(build_data).map.blocked,
            final(build_data).width == old(build_data).width,
            final(build_data).height == old(build_data).height,
            final(build_data).spawn_list == old(build_data).spawn_list,
            final(build_data).starting_position == old(build_data).starting_position,
            final(build_data).rooms == old(build_data).rooms,
            final(build_data).corridors == old(build_data).corridors,
            !crate::SHOW_MAPGEN_VISUALIZER ==> final(build_data).history == old(
                build_data,
            ).history,
            r is Err ==> *final(build_data) == *old(build_data),
            r is Err ==> r == Err::<(), BuildError>(BuildError::NoRooms) || r == Err::<
                (),
                BuildError,
            >(BuildError::RoomOutOfBounds),
            (old(build_data).rooms is None || (old(build_data).rooms matches Some(rs) && rs@.len()
                == 0)) <==> r == Err::<(), BuildError>(BuildError::NoRooms),
            r is Ok <==> (old(build_data).rooms matches Some(rs) && rs@.len() > 0 && {
                let room = rs@[rs@.len() - 1];
                &&& 0 <= room.x1 + room.x2
                &&& 0 <= room.y1 + room.y2
                &&& 0 <= room.spec_center().0 < old(build_data).map.width
                &&& 0 <= room.spec_center().1 < old(build_data).map.height
            }),
            r is Ok ==> (old(build_data).rooms matches Some(rs) && rs@.len() > 0 && {
                let room = rs@[rs@.len() - 1];
                let w = old(build_data).map.width as int;
                let h = old(build_data).map.height as int;
                let cx = room.spec_center().0;
                let cy = room.spec_center().1;
                &&& 0 <= cx < w
                &&& 0 <= cy < h
                &&& final(build_data).map.tiles@ == old(build_data).map.tiles@.update(
                    cy * w + cx,
                    TileType::DownStairs,
                )
            }),
    {
        let last: Rect = match &build_data.rooms {
            None => {
                return Err(BuildError::NoRooms);
            },
            Some(rooms) => {
                let n = rooms.len();
                if n == 0 {
                    return Err(BuildError::NoRooms);
                }
                rooms[n - 1]
            },
        };
        if (last.x1 as i64) + (last.x2 as i64) < 0 || (last.y1 as i64) + (last.y2 as i64) < 0 {
            return Err(BuildError::RoomOutOfBounds);
        }
        let stairs_position = last.center();
        let width = build_data.map.width;
        let height = build_data.map.height;
        if stairs_position.0 < 0 || stairs_position.0 >= width || stairs_position.1 < 0
            || stairs_position.1 >= height {
            return Err(BuildError::RoomOutOfBounds);
        }
        let stairs_idx = build_data.map.xy_idx(stairs_position.0, stairs_position.1);
        build_data.map.tiles[stairs_idx] = TileType::DownStairs;
        build_data.take_snapshot();
        Ok(())
    }
}

} // verus!
