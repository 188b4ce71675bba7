//! Shared carving helpers: brush painting with optional mirrored symmetry.
//! Painting only ever converts cells to floor.

use vstd::prelude::*;
use crate::map::{Grid, TileType};

verus! {

/// Mirroring rule applied when painting a carved cell.
#[derive(Clone, Copy, Debug, PartialEq, Eq, Structural)]
pub enum Symmetry {
    NoSymmetry,
    Horizontal,
    Vertical,
    Both,
}

/// Carve a square brush centred on (x, y). Cells may only change to floor;
/// a brush of size one paints exactly the centre cell, larger brushes paint
/// the interior cells of the surrounding box.
#[verifier::loop_isolation(false)]
pub(crate) fn apply_paint(map: &mut Grid, brush_size: i32, x: i32, y: i32)
    requires
        old(map).wf(),
        1 <= brush_size,
        0 <= x < old(map).width,
        0 <= y < old(map).height,
    ensures
        final(map).wf(),
        final(map).width == old(map).width,
        final(map).height == old(map).height,
        final(map).depth == old(map).depth,
        final(map).blocked == old(map).blocked,
        final(map).tiles@.len() == old(map).tiles@.len(),
        forall|i: int|
            0 <= i < final(map).tiles@.len() ==> final(map).tiles@[i] == old(map).tiles@[i]
                || final(map).tiles@[i] == TileType::Floor,
        brush_size == 1 ==> final(map).tiles@[old(map).spec_idx(x as int, y as int)]
            == TileType::Floor,
{
    if brush_size == 1 {
        let idx = map.xy_idx(x, y);
        map.tiles[idx] = TileType::Floor;
    } else {
        let half = (brush_size / 2) as i64;
        let x64 = x as i64;
        let y64 = y as i64;
        let w64 = map.width as i64;
        let h64 = map.height as i64;
        let mut by: i64 = y64 - half;
        while by < y64 + half
            invariant
                map.wf(),
                map.width == old(map).width,
                map.height == old(map).height,
                map.depth == old(map).depth,
                map.blocked == old(map).blocked,
                map.tiles@.len() == old(map).tiles@.len(),
                w64 == map.width as i64,
                h64 == map.height as i64,
                -0x1_0000_0000 <= by <= 0x1_0000_0000,
                y64 + half <= 0x1_0000_0000,
                x64 - half >= -0x1_0000_0000,
                x64 + half <= 0x1_0000_0000,
                forall|i: int|
                    0 <= i < map.tiles@.len() ==> map.tiles@[i] == old(map).tiles@[i]
                        || map.tiles@[i] == TileType::Floor,
            decreases y64 + half - by,
        {
            let mut bx: i64 = x64 - half;
            while bx < x64 + half
                invariant
                    map.wf(),
                    map.width == old(map).width,
                    map.height == old(map).height,
                    map.depth == old(map).depth,
                    map.blocked == old(map).blocked,
                    map.tiles@.len() == old(map).tiles@.len(),
                    w64 == map.width as i64,
                    h64 == map.height as i64,
                    -0x1_0000_0000 <= bx <= 0x1_0000_0000,
                    -0x1_0000_0000 <= by <= 0x1_0000_0000,
                    x64 + half <= 0x1_0000_0000,
                    forall|i: int|
                        0 <= i < map.tiles@.len() ==> map.tiles@[i] == old(map).tiles@[i]
                            || map.tiles@[i] == TileType::Floor,
                decreases x64 + half - bx,
            {
                if bx > 1 && bx < w64 - 1 && by > 1 && by < h64 - 1 {
                    let idx = map.xy_idx(bx as i32, by as i32);
                    map.tiles[idx] = TileType::Floor;
                }
                bx = bx + 1;
            }
            by = by + 1;
        }
    }
}

/// Carve a brush at (x, y) and, per the symmetry mode, at its mirror images
/// about the grid's central column and row. Cells may only change to floor.
pub(crate) fn paint(map: &mut Grid, mode: Symmetry, brush_size: i32, x: i32, y: i32)
    requires
        old(map).wf(),
        1 <= brush_size,
        0 <= x < old(map).width,
        0 <= y < old(map).height,
    ensures
        final(map).wf(),
        final(map).width == old(map).width,
        final(map).height == old(map).height,
        final(map).depth == old(map).depth,
        final(map).blocked == old(map).blocked,
        final(map).tiles@.len() == old(map).tiles@.len(),
        forall|i: int|
            0 <= i < final(map).tiles@.len() ==> final(map).tiles@[i] == old(map).tiles@[i]
                || final(map).tiles@[i] == TileType::Floor,
        mode == Symmetry::NoSymmetry && brush_size == 1 ==> final(map).tiles@[old(map).spec_idx(
            x as int,
            y as int,
        )] == TileType::Floor,
{
    match mode {
        Symmetry::NoSymmetry => {
            apply_paint(map, brush_size, x, y);
        },
        Symmetry::Horizontal => {
            paint_horizontal(map, brush_size, x, y);
        },
        Symmetry::Vertical => {
            paint_vertical(map, brush_size, x, y);
        },
        Symmetry::Both => {
            paint_horizontal(map, brush_size, x, y);
            paint_vertical(map, brush_size, x, y);
        },
    }
}

/// Carve at (x, y)'s mirror images about the central column.
fn paint_horizontal(map: &mut Grid, brush_size: i32, x: i32, y: i32)
    requires
        old(map).wf(),
        1 <= brush_size,
        0 <= x < old(map).width,
        0 <= y < old(map).height,
    ensures
        final(map).wf(),
        final(map).width == old(map).width,
        final(map).height == old(map).height,
        final(map).depth == old(map).depth,
        final(map).blocked == old(map).blocked,
        final(map).tiles@.len() == old(map).tiles@.len(),
        forall|i: int|
            0 <= i < final(map).tiles@.len() ==> final(map).tiles@[i] == old(map).tiles@[i]
                || final(map).tiles@[i] == TileType::Floor,
{
    let center_x = map.width / 2;
    if x == center_x {
        apply_paint(map, brush_size, x, y);
    } else {
        let dist_x = if center_x >= x {
            center_x - x
        } else {
            x - center_x
        };
        let east = center_x as i64 + dist_x as i64;
        let west = center_x as i64 - dist_x as i64;
        if 0 <= east && east < map.width as i64 {
            apply_paint(map, brush_size, east as i32, y);
        }
        if 0 <= west && west < map.width as i64 {
            apply_paint(map, brush_size, west as i32, y);
        }
    }
}

/// Carve at (x, y)'s mirror images about the central row.
fn paint_vertical(map: &mut Grid, brush_size: i32, x: i32, y: i32)
    requires
        old(map).wf(),
        1 <= brush_size,
        0 <= x < old(map).width,
        0 <= y < old(map).height,
    ensures
        final(map).wf(),
        final(map).width == old(map).width,
        final(map).height == old(map).height,
        final(map).depth == old(map).depth,
        final(map).blocked == old(map).blocked,
        final(map).tiles@.len() == old(map).tiles@.len(),
        forall|i: int|
            0 <= i < final(map).tiles@.len() ==> final(map).tiles@[i] == old(map).tiles@[i]
                || final(map).tiles@[i] == TileType::Floor,
{
    let center_y = map.height / 2;
    if y == center_y {
        apply_paint(map, brush_size, x, y);
    } else {
        let dist_y = if center_y >= y {
            center_y - y
        } else {
            y - center_y
        };
        let south = center_y as i64 + dist_y as i64;
        let north = center_y as i64 - dist_y as i64;
        if 0 <= south && south < map.height as i64 {
            apply_paint(map, brush_size, x, south as i32);
        }
        if 0 <= north && north < map.height as i64 {
            apply_paint(map, brush_size, x, north as i32);
        }
    }
}

} // verus!
