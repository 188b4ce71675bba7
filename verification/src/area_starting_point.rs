//! Starting-position selection: anchor a point at a grid corner, edge or the
//! centre, then pick the floor cell nearest to it (squared Euclidean
//! distance, ties broken by scan order).

use vstd::prelude::*;
use crate::builder::BuilderMap;
use crate::geometry::Position;
use crate::map::TileType;
use crate::reachability::lemma_idx_grid;
use crate::BuildError;

verus! {

/// Horizontal anchor of the seed point.
#[derive(Clone, Copy, Debug, PartialEq, Eq, Structural)]
pub enum XStart {
    LEFT,
    CENTER,
    RIGHT,
}

/// Vertical anchor of the seed point.
#[derive(Clone, Copy, Debug, PartialEq, Eq, Structural)]
pub enum YStart {
    TOP,
    CENTER,
    BOTTOM,
}

/// Column of the anchor point on a grid of width `w`.
pub open spec fn seed_x_spec(xs: XStart, w: int) -> int {
    match xs {
        XStart::LEFT => 1,
        XStart::CENTER => w / 2,
        XStart::RIGHT => w - 2,
    }
}

/// Row of the anchor point on a grid of height `h`.
pub open spec fn seed_y_spec(ys: YStart, h: int) -> int {
    match ys {
        YStart::TOP => 1,
        YStart::CENTER => h / 2,
        YStart::BOTTOM => h - 2,
    }
}

/// Squared Euclidean distance from cell `i` to the anchor (sx, sy).
pub open spec fn dist2(w: int, i: int, sx: int, sy: int) -> int {
    let dx = i % w - sx;
    let dy = i / w - sy;
    dx * dx + dy * dy
}

/// On a grid with exactly one floor cell, the selected starting position is
/// that cell, regardless of the anchors: the stage's contract pins the
/// choice to a floor cell nearest the anchor, and only one candidate exists.
/// The hypotheses are what the stage's contract yields for the position it
/// selected.
pub proof fn lemma_single_floor_start(t: Seq<TileType>, w: int, p: Position, f: int)
    requires
        1 <= w,
        0 <= f < t.len(),
        t[f] == TileType::Floor,
        forall|j: int| 0 <= j < t.len() && j != f ==> t[j] != TileType::Floor,
        0 <= p.y * w + p.x < t.len(),
        t[p.y * w + p.x] == TileType::Floor,
    ensures
        p.y * w + p.x == f,
{
}

pub struct AreaStartingPosition {
    pub x: XStart,
    pub y: YStart,
}

impl AreaStartingPosition {
    pub fn new(x: XStart, y: YStart) -> (b: Box<AreaStartingPosition>)
        ensures
            b.x == x,
            b.y == y,
    {
        Box::new(AreaStartingPosition { x, y })
    }

    /// Set the starting position (overwriting any prior one) to the floor
    /// cell nearest the configured anchor; on equal distances the cell that
    /// comes first in scan order wins. Fails when no floor cell exists.
    #[verifier::loop_isolation(false)]
    pub fn build_map(
        &self,
        _rng: &mut rltk::RandomNumberGenerator,
        build_data: &mut BuilderMap,
    ) -> (r: Result<(), BuildError>)
        requires
            old(build_data).wf(),
        ensures
            final(build_data).wf(),
            final(build_data).map == old(build_data).map,
            final(build_data).spawn_list == old(build_data).spawn_list,
            final(build_data).rooms == old(build_data).rooms,
            final(build_data).corridors == old(build_data).corridors,
            final(build_data).history == old(build_data).history,
            final(build_data).width == old(build_data).width,
            final(build_data).height == old(build_data).height,
            r is Ok <==> exists|j: int|
                0 <= j < old(build_data).map.tiles@.len() && old(build_data).map.tiles@[j]
                    == TileType::Floor,
            r is Err ==> r == Err::<(), BuildError>(BuildError::NoFloorTiles) && *final(build_data)
                == *old(build_data),
            r is Ok ==> (final(build_data).starting_position matches Some(p) && {
                let w = old(build_data).map.width as int;
                let h = old(build_data).map.height as int;
                let t = old(build_data).map.tiles@;
                let sx = seed_x_spec(self.x, w);
                let sy = seed_y_spec(self.y, h);
                let pi = p.y * w + p.x;
                &&& 0 <= p.x < w
                &&& 0 <= p.y < h
                &&& t[pi] == TileType::Floor
                &&& forall|j: int|
                    0 <= j < t.len() && #[trigger] t[j] == TileType::Floor ==> dist2(w, pi, sx, sy)
                        <= dist2(w, j, sx, sy)
                &&& forall|j: int|
                    0 <= j < t.len() && #[trigger] t[j] == TileType::Floor && dist2(w, j, sx, sy)
                        == dist2(w, pi, sx, sy) ==> pi <= j
            }),
    {
        let width = build_data.map.width;
        let height = build_data.map.height;
        let ghost w = width as int;
        let ghost h = height as int;
        let seed_x: i32 = match self.x {
            XStart::LEFT => 1,
            XStart::CENTER => width / 2,
            XStart::RIGHT => width - 2,
        };
        let seed_y: i32 = match self.y {
            YStart::TOP => 1,
            YStart::CENTER => height / 2,
            YStart::BOTTOM => height - 2,
        };
        let ghost sx = seed_x as int;
        let ghost sy = seed_y as int;

        let n = build_data.map.tiles.len();
        let mut best_idx: usize = 0;
        let mut best_d: i64 = 0;
        let mut found = false;
        let mut idx: usize = 0;
        while idx < n
            invariant
                idx <= n,
                !found ==> forall|j: int|
                    0 <= j < idx ==> build_data.map.tiles@[j] != TileType::Floor,
                found ==> (best_idx as int) < idx,
                found ==> (best_idx as int) < n && build_data.map.tiles@[best_idx as int]
                    == TileType::Floor && best_d == dist2(w, best_idx as int, sx, sy) && (forall|
                    j: int,
                |
                    0 <= j < idx && #[trigger] build_data.map.tiles@[j] == TileType::Floor ==> best_d
                        <= dist2(w, j, sx, sy)) && (forall|j: int|
                    0 <= j < idx && #[trigger] build_data.map.tiles@[j] == TileType::Floor && dist2(
                        w,
                        j,
                        sx,
                        sy,
                    ) == best_d ==> best_idx <= j),
            decreases n - idx,
        {
            if build_data.map.tiles[idx] == TileType::Floor {
                proof {
                    lemma_idx_grid(w, h, idx as int);
                }
                let x = (idx as i32) % width;
                let y = (idx as i32) / width;
                proof {
                    assert(x as int == (idx as int) % w && y as int == (idx as int) / w);
                    assert(0 <= x < width && 0 <= y < height);
                    assert(-1 <= seed_x <= i32::MAX);
                    assert(-1 <= seed_y <= i32::MAX);
                }
                let dx = x as i64 - seed_x as i64;
                let dy = y as i64 - seed_y as i64;
                proof {
                    assert(dx * dx + dy * dy < 0x7fff_ffff_ffff_ffff && dx * dx >= 0 && dy * dy
                        >= 0) by (nonlinear_arith)
                        requires
                            -0x7fff_ffff <= dx <= 0x7fff_ffff,
                            -0x7fff_ffff <= dy <= 0x7fff_ffff,
                    ;
                }
                let d = dx * dx + dy * dy;
                proof {
                    assert(d == dist2(w, idx as int, sx, sy));
                }
                if !found {
                    found = true;
                    best_idx = idx;
                    best_d = d;
                } else if d < best_d {
                    best_idx = idx;
                    best_d = d;
                }
            }
            idx = idx + 1;
        }
        if !found {
            return Err(BuildError::NoFloorTiles);
        }
        proof {
            lemma_idx_grid(w, h, best_idx as int);
        }
        let start_x = (best_idx as i32) % width;
        let start_y = (best_idx as i32) / width;
        build_data.starting_position = Some(Position { x: start_x, y: start_y });
        Ok(())
    }
}

} // verus!
