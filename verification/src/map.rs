//! The tile grid: cell classification, coordinate math, and the derived
//! "blocked" bitmap recomputed before pathfinding.

use vstd::prelude::*;

verus! {

/// Number of floor cells in a tile sequence.
pub open spec fn floor_count(tiles: Seq<TileType>) -> int
    decreases tiles.len(),
{
    if tiles.len() == 0 {
        0
    } else {
        floor_count(tiles.drop_last()) + if tiles.last() == TileType::Floor {
            1int
        } else {
            0int
        }
    }
}

pub proof fn lemma_floor_count_bounds(tiles: Seq<TileType>)
    ensures
        0 <= floor_count(tiles) <= tiles.len(),
    decreases tiles.len(),
{
    if tiles.len() > 0 {
        lemma_floor_count_bounds(tiles.drop_last());
    }
}

pub proof fn lemma_floor_count_update(tiles: Seq<TileType>, i: int, t: TileType)
    requires
        0 <= i < tiles.len(),
    ensures
        floor_count(tiles.update(i, t)) == floor_count(tiles) + (if t == TileType::Floor {
            1int
        } else {
            0int
        }) - (if tiles[i] == TileType::Floor {
            1int
        } else {
            0int
        }),
    decreases tiles.len(),
{
    let u = tiles.update(i, t);
    if i == tiles.len() - 1 {
        assert(u.drop_last() =~= tiles.drop_last());
        assert(u.last() == t);
    } else {
        lemma_floor_count_update(tiles.drop_last(), i, t);
        assert(u.drop_last() =~= tiles.drop_last().update(i, t));
        assert(u.last() == tiles.last());
    }
}

pub proof fn lemma_floor_count_all(tiles: Seq<TileType>)
    requires
        forall|i: int| 0 <= i < tiles.len() ==> tiles[i] == TileType::Floor,
    ensures
        floor_count(tiles) == tiles.len(),
    decreases tiles.len(),
{
    if tiles.len() > 0 {
        lemma_floor_count_all(tiles.drop_last());
    }
}

/// Count the floor cells of the grid.
pub fn count_floor(tiles: &Vec<TileType>) -> (c: usize)
    ensures
        c == floor_count(tiles@),
{
    let n = tiles.len();
    let mut c: usize = 0;
    let mut i: usize = 0;
    while i < n
        invariant
            i <= n,
            n == tiles@.len(),
            c == floor_count(tiles@.take(i as int)),
            c <= i,
        decreases n - i,
    {
        proof {
            let pre = tiles@.take(i as int);
            let post = tiles@.take(i as int + 1);
            assert(post.drop_last() =~= pre);
            assert(post.last() == tiles@[i as int]);
            lemma_floor_count_bounds(pre);
        }
        if tiles[i] == TileType::Floor {
            c = c + 1;
        }
        i = i + 1;
    }
    proof {
        assert(tiles@.take(n as int) =~= tiles@);
    }
    c
}

/// Classification of one grid cell.
#[derive(Clone, Copy, Debug, PartialEq, Eq, Structural)]
pub enum TileType {
    Wall,
    Floor,
    DownStairs,
}

/// A width x height grid of tiles in row-major order, with a depth
/// identifier and a derived bitmap of impassable cells.
#[derive(Clone)]
pub struct Grid {
    pub tiles: Vec<TileType>,
    pub depth: i32,
    pub width: i32,
    pub height: i32,
    pub blocked: Vec<bool>,
}

impl Grid {
    /// Structural invariant: positive dimensions whose product is the cell
    /// count, and a blocked bitmap of the same length.
    pub open spec fn wf(self) -> bool {
        &&& 1 <= self.width
        &&& 1 <= self.height
        &&& self.width * self.height <= i32::MAX
        &&& self.tiles@.len() == self.width * self.height
        &&& self.blocked@.len() == self.tiles@.len()
    }

    /// Row-major cell index of the coordinate pair (x, y).
    pub open spec fn spec_idx(self, x: int, y: int) -> int {
        y * self.width + x
    }

    /// A blank all-wall grid of the given dimensions and depth.
    pub fn new(new_depth: i32, width: i32, height: i32) -> (m: Grid)
        requires
            1 <= width,
            1 <= height,
            width * height <= i32::MAX,
        ensures
            m.wf(),
            m.width == width,
            m.height == height,
            m.depth == new_depth,
            forall|i: int| 0 <= i < m.tiles@.len() ==> m.tiles@[i] == TileType::Wall,
            forall|i: int| 0 <= i < m.blocked@.len() ==> m.blocked@[i] == false,
    {
        let count = (width as usize) * (height as usize);
        let mut tiles: Vec<TileType> = Vec::new();
        let mut blocked: Vec<bool> = Vec::new();
        let mut i: usize = 0;
        while i < count
            invariant
                i <= count,
                count == width * height,
                tiles@.len() == i,
                blocked@.len() == i,
                forall|k: int| 0 <= k < i ==> tiles@[k] == TileType::Wall,
                forall|k: int| 0 <= k < i ==> blocked@[k] == false,
            decreases count - i,
        {
            tiles.push(TileType::Wall);
            blocked.push(false);
            i = i + 1;
        }
        Grid { tiles, depth: new_depth, width, height, blocked }
    }

    /// Row-major cell index of (x, y); always inside the tile vector.
    pub fn xy_idx(&self, x: i32, y: i32) -> (idx: usize)
        requires
            self.wf(),
            0 <= x < self.width,
            0 <= y < self.height,
        ensures
            idx == self.spec_idx(x as int, y as int),
            idx < self.tiles@.len(),
    {
        proof {
            assert(y * self.width + x < self.width * self.height) by (nonlinear_arith)
                requires
                    0 <= x < self.width,
                    0 <= y < self.height,
            ;
            assert(0 <= y * self.width) by (nonlinear_arith)
                requires
                    0 <= y,
                    0 < self.width,
            ;
        }
        (y as usize) * (self.width as usize) + (x as usize)
    }

    /// Recompute the blocked bitmap: a cell blocks movement exactly when it
    /// is not a floor cell.
    pub fn populate_blocked(&mut self)
        requires
            old(self).wf(),
        ensures
            final(self).wf(),
            final(self).tiles == old(self).tiles,
            final(self).width == old(self).width,
            final(self).height == old(self).height,
            final(self).depth == old(self).depth,
            final(self).blocked@.len() == old(self).blocked@.len(),
            forall|i: int|
                0 <= i < final(self).blocked@.len()
                    ==> final(self).blocked@[i] == (final(self).tiles@[i] != TileType::Floor),
    {
        let n = self.tiles.len();
        let mut i: usize = 0;
        while i < n
            invariant
                i <= n,
                n == self.tiles@.len(),
                self.blocked@.len() == n,
                self.tiles == old(self).tiles,
                self.width == old(self).width,
                self.height == old(self).height,
                self.depth == old(self).depth,
                forall|k: int|
                    0 <= k < i ==> self.blocked@[k] == (self.tiles@[k] != TileType::Floor),
            decreases n - i,
        {
            let b = self.tiles[i] != TileType::Floor;
            self.blocked[i] = b;
            i = i + 1;
        }
    }
}

} // verus!
