//! Random-walk excavation: walkers stagger across the grid painting floor
//! until the carved fraction reaches a configured target. Termination of the
//! stochastic loop is only probabilistic, so the walk is capped at a fixed
//! number of walkers; if the cap is ever hit the remaining cells are carved
//! in scan order so that the target is always met.

use vstd::prelude::*;
use crate::builder::BuilderMap;
use crate::common::{paint, Symmetry};
use crate::map::{count_floor, floor_count, lemma_floor_count_all, lemma_floor_count_bounds,
    lemma_floor_count_update, TileType};
use crate::rng::roll_dice;
use crate::BuildError;
use vstd::arithmetic::div_mod::{lemma_div_is_ordered, lemma_div_multiples_vanish};

verus! {

/// Walkers either all start at the grid centre or restart at random cells.
#[derive(Clone, Copy, Debug, PartialEq, Eq, Structural)]
pub enum DrunkSpawnMode {
    StartingPoint,
    Random,
}

pub(crate) struct DrunkardSettings {
    pub spawn_mode: DrunkSpawnMode,
    pub drunken_lifetime: i32,
    /// Target floor fraction, in hundredths of the cell count.
    pub floor_percent: i32,
    pub brush_size: i32,
    pub symmetry: Symmetry,
}

/// Upper bound on spawned walkers before the deterministic fallback carve.
pub(crate) const MAX_WALKERS: u32 = 10000;

/// The number of floor cells the excavator must reach: the configured
/// fraction (in hundredths) of the grid's cell count.
pub open spec fn desired_floor(fp: int, total: int) -> int {
    fp * total / 100
}

pub struct DrunkardsWalkBuilder {
    settings: DrunkardSettings,
}

impl DrunkardsWalkBuilder {
    #[verifier::type_invariant]
    pub closed spec fn inv(self) -> bool {
        &&& 1 <= self.settings.floor_percent <= 100
        &&& 1 <= self.settings.brush_size
        &&& 1 <= self.settings.drunken_lifetime
    }

    /// The configured target floor fraction, in hundredths.
    pub closed spec fn floor_percent_spec(self) -> int {
        self.settings.floor_percent as int
    }

    /// The configured walker-spawn mode.
    pub closed spec fn spawn_mode_spec(self) -> DrunkSpawnMode {
        self.settings.spawn_mode
    }

    /// The configured walker lifetime, in steps.
    pub closed spec fn lifetime_spec(self) -> int {
        self.settings.drunken_lifetime as int
    }

    /// The configured brush size.
    pub closed spec fn brush_size_spec(self) -> int {
        self.settings.brush_size as int
    }

    /// The configured mirroring rule.
    pub closed spec fn symmetry_spec(self) -> Symmetry {
        self.settings.symmetry
    }

    fn new(settings: DrunkardSettings) -> (b: DrunkardsWalkBuilder)
        requires
            1 <= settings.floor_percent <= 100,
            1 <= settings.brush_size,
            1 <= settings.drunken_lifetime,
        ensures
            b.settings == settings,
    {
        DrunkardsWalkBuilder { settings }
    }

    /// Centre-spawning walkers with long lifetimes carving half the grid.
    pub fn open_area() -> (b: Box<DrunkardsWalkBuilder>)
        ensures
            b.spawn_mode_spec() == DrunkSpawnMode::StartingPoint,
            b.lifetime_spec() == 400,
            b.floor_percent_spec() == 50,
            b.brush_size_spec() == 1,
            b.symmetry_spec() == Symmetry::NoSymmetry,
    {
        Box::new(
            Self::new(
                DrunkardSettings {
                    spawn_mode: DrunkSpawnMode::StartingPoint,
                    drunken_lifetime: 400,
                    floor_percent: 50,
                    brush_size: 1,
                    symmetry: Symmetry::NoSymmetry,
                },
            ),
        )
    }

    /// Randomly restarting walkers with long lifetimes carving half the grid.
    pub fn open_halls() -> (b: Box<DrunkardsWalkBuilder>)
        ensures
            b.spawn_mode_spec() == DrunkSpawnMode::Random,
            b.lifetime_spec() == 400,
            b.floor_percent_spec() == 50,
            b.brush_size_spec() == 1,
            b.symmetry_spec() == Symmetry::NoSymmetry,
    {
        Box::new(
            Self::new(
                DrunkardSettings {
                    spawn_mode: DrunkSpawnMode::Random,
                    drunken_lifetime: 400,
                    floor_percent: 50,
                    brush_size: 1,
                    symmetry: Symmetry::NoSymmetry,
                },
            ),
        )
    }

    /// Short-lived random walkers carving two fifths of the grid.
    pub fn winding_passages() -> (b: Box<DrunkardsWalkBuilder>)
        ensures
            b.spawn_mode_spec() == DrunkSpawnMode::Random,
            b.lifetime_spec() == 100,
            b.floor_percent_spec() == 40,
            b.brush_size_spec() == 1,
            b.symmetry_spec() == Symmetry::NoSymmetry,
    {
        Box::new(
            Self::new(
                DrunkardSettings {
                    spawn_mode: DrunkSpawnMode::Random,
                    drunken_lifetime: 100,
                    floor_percent: 40,
                    brush_size: 1,
                    symmetry: Symmetry::NoSymmetry,
                },
            ),
        )
    }

    /// Short-lived random walkers with a wide brush.
    pub fn fat_passages() -> (b: Box<DrunkardsWalkBuilder>)
        ensures
            b.spawn_mode_spec() == DrunkSpawnMode::Random,
            b.lifetime_spec() == 100,
            b.floor_percent_spec() == 40,
            b.brush_size_spec() == 2,
            b.symmetry_spec() == Symmetry::NoSymmetry,
    {
        Box::new(
            Self::new(
                DrunkardSettings {
                    spawn_mode: DrunkSpawnMode::Random,
                    drunken_lifetime: 100,
                    floor_percent: 40,
                    brush_size: 2,
                    symmetry: Symmetry::NoSymmetry,
                },
            ),
        )
    }

    /// Short-lived random walkers painting with full mirrored symmetry.
    pub fn fearful_symmetry() -> (b: Box<DrunkardsWalkBuilder>)
        ensures
            b.spawn_mode_spec() == DrunkSpawnMode::Random,
            b.lifetime_spec() == 100,
            b.floor_percent_spec() == 40,
            b.brush_size_spec() == 1,
            b.symmetry_spec() == Symmetry::Both,
    {
        Box::new(
            Self::new(
                DrunkardSettings {
                    spawn_mode: DrunkSpawnMode::Random,
                    drunken_lifetime: 100,
                    floor_percent: 40,
                    brush_size: 1,
                    symmetry: Symmetry::Both,
                },
            ),
        )
    }

    /// Run the excavation. On grids at least 4 cells wide and high this
    /// carves (never un-carves) until at least the configured fraction of
    /// cells is floor, leaves the central cell floor, leaves no stairs, and
    /// touches nothing in the context but the grid tiles (and, when the
    /// visualizer is on, the history).
    #[verifier::loop_isolation(false)]
    pub fn build_map(
        &self,
        rng: &mut rltk::RandomNumberGenerator,
        build_data: &mut BuilderMap,
    ) -> (r: Result<(), BuildError>)
        requires
            old(build_data).wf(),
        ensures
            final(build_data).wf(),
            final(build_data).map.width == old(build_data).map.width,
            final(build_data).map.height == old(build_data).map.height,
            final(build_data).map.depth == old(build_data).map.depth,
            final(build_data).map.blocked == old(build_data).map.blocked,
            final(build_data).width == old(build_data).width,
            final(build_data).height == old(build_data).height,
            final(build_data).spawn_list == old(build_data).spawn_list,
            final(build_data).starting_position == old(build_data).starting_position,
            final(build_data).rooms == old(build_data).rooms,
            final(build_data).corridors == old(build_data).corridors,
            !crate::SHOW_MAPGEN_VISUALIZER ==> final(build_data).history == old(
                build_data,
            ).history,
            r is Ok <==> (old(build_data).map.width >= 4 && old(build_data).map.height >= 4),
            r is Err ==> r == Err::<(), BuildError>(BuildError::MapTooSmall) && *final(build_data)
                == *old(build_data),
            r is Ok ==> {
                let t = final(build_data).map.tiles@;
                let w = old(build_data).map.width as int;
                let h = old(build_data).map.height as int;
                &&& forall|i: int|
                    0 <= i < t.len() ==> t[i] == old(build_data).map.tiles@[i] || #[trigger] t[i]
                        == TileType::Floor
                &&& (forall|i: int|
                    0 <= i < t.len() ==> old(build_data).map.tiles@[i] != TileType::DownStairs)
                    ==> (forall|i: int| 0 <= i < t.len() ==> #[trigger] t[i] != TileType::DownStairs)
                &&& t[(h / 2) * w + w / 2] == TileType::Floor
                &&& floor_count(t) >= desired_floor(self.floor_percent_spec(), w * h)
                &&& {
                    let seeded = old(build_data).map.tiles@.update(
                        (h / 2) * w + w / 2,
                        TileType::Floor,
                    );
                    floor_count(seeded) >= desired_floor(self.floor_percent_spec(), w * h) ==> t
                        == seeded
                }
            },
    {
        proof {
            use_type_invariant(&*self);
        }
        if build_data.map.width < 4 || build_data.map.height < 4 {
            return Err(BuildError::MapTooSmall);
        }
        let width = build_data.map.width;
        let height = build_data.map.height;
        let ghost w = width as int;
        let ghost h = height as int;
        let start_x = width / 2;
        let start_y = height / 2;
        let start_idx = build_data.map.xy_idx(start_x, start_y);
        build_data.map.tiles[start_idx] = TileType::Floor;
        let ghost seeded = build_data.map.tiles@;
        proof {
            assert(seeded == old(build_data).map.tiles@.update(
                (h / 2) * w + w / 2,
                TileType::Floor,
            ));
        }

        let total_tiles: i32 = width * height;
        proof {
            let fp = self.settings.floor_percent as int;
            let tt = total_tiles as int;
            assert(0 <= fp * tt <= 100 * tt) by (nonlinear_arith)
                requires
                    1 <= fp <= 100,
                    0 <= tt,
            ;
            lemma_div_is_ordered(fp * tt, 100 * tt, 100);
            lemma_div_multiples_vanish(tt, 100);
            assert(fp * tt / 100 <= tt);
            assert(0 <= fp * tt / 100) by {
                lemma_div_is_ordered(0, fp * tt, 100);
            }
        }
        let desired_floor_tiles: usize = ((self.settings.floor_percent as i64 * total_tiles as i64)
            / 100) as usize;
        proof {
            assert(desired_floor_tiles <= total_tiles);
        }
        let mut floor_tile_count = count_floor(&build_data.map.tiles);
        let mut first_digger = true;
        let mut walkers: u32 = 0;

        while floor_tile_count < desired_floor_tiles && walkers < MAX_WALKERS
            invariant
                build_data.wf(),
                build_data.map.width == old(build_data).map.width,
                build_data.map.height == old(build_data).map.height,
                build_data.map.depth == old(build_data).map.depth,
                build_data.map.blocked == old(build_data).map.blocked,
                build_data.width == old(build_data).width,
                build_data.height == old(build_data).height,
                build_data.spawn_list == old(build_data).spawn_list,
                build_data.starting_position == old(build_data).starting_position,
                build_data.rooms == old(build_data).rooms,
                build_data.corridors == old(build_data).corridors,
                !crate::SHOW_MAPGEN_VISUALIZER ==> build_data.history == old(build_data).history,
                forall|i: int|
                    0 <= i < build_data.map.tiles@.len() ==> build_data.map.tiles@[i] == old(
                        build_data,
                    ).map.tiles@[i] || #[trigger] build_data.map.tiles@[i] == TileType::Floor,
                (forall|i: int|
                    0 <= i < old(build_data).map.tiles@.len() ==> old(build_data).map.tiles@[i]
                        != TileType::DownStairs) ==> (forall|i: int|
                    0 <= i < build_data.map.tiles@.len() ==> #[trigger] build_data.map.tiles@[i]
                        != TileType::DownStairs),
                build_data.map.tiles@[(h / 2) * w + w / 2] == TileType::Floor,
                floor_tile_count == floor_count(build_data.map.tiles@),
                floor_count(seeded) >= desired_floor_tiles ==> build_data.map.tiles@ == seeded,
            decreases MAX_WALKERS - walkers,
        {
            walkers = walkers + 1;
            let mut did_something = false;
            let mut drunk_x: i32;
            let mut drunk_y: i32;
            match self.settings.spawn_mode {
                DrunkSpawnMode::StartingPoint => {
                    drunk_x = start_x;
                    drunk_y = start_y;
                },
                DrunkSpawnMode::Random => {
                    if first_digger {
                        drunk_x = start_x;
                        drunk_y = start_y;
                        first_digger = false;
                    } else {
                        drunk_x = roll_dice(rng, 1, width - 3) + 1;
                        drunk_y = roll_dice(rng, 1, height - 3) + 1;
                    }
                },
            }
            let drunk_life = self.settings.drunken_lifetime;

            let mut step: i32 = 0;
            while step < drunk_life
                invariant
                    build_data.wf(),
                    build_data.map.width == old(build_data).map.width,
                    build_data.map.height == old(build_data).map.height,
                    build_data.map.depth == old(build_data).map.depth,
                    build_data.map.blocked == old(build_data).map.blocked,
                    build_data.width == old(build_data).width,
                    build_data.height == old(build_data).height,
                    build_data.spawn_list == old(build_data).spawn_list,
                    build_data.starting_position == old(build_data).starting_position,
                    build_data.rooms == old(build_data).rooms,
                    build_data.corridors == old(build_data).corridors,
                    !crate::SHOW_MAPGEN_VISUALIZER ==> build_data.history == old(
                        build_data,
                    ).history,
                    forall|i: int|
                        0 <= i < build_data.map.tiles@.len() ==> build_data.map.tiles@[i] == old(
                            build_data,
                        ).map.tiles@[i] || #[trigger] build_data.map.tiles@[i] == TileType::Floor
                            || build_data.map.tiles@[i] == TileType::DownStairs,
                    build_data.map.tiles@[(h / 2) * w + w / 2] == TileType::Floor
                        || build_data.map.tiles@[(h / 2) * w + w / 2] == TileType::DownStairs,
                    2 <= drunk_x <= width - 2,
                    2 <= drunk_y <= height - 2,
                decreases drunk_life - step,
            {
                let drunk_idx = build_data.map.xy_idx(drunk_x, drunk_y);
                if build_data.map.tiles[drunk_idx] == TileType::Wall {
                    did_something = true;
                }
                paint(
                    &mut build_data.map,
                    self.settings.symmetry,
                    self.settings.brush_size,
                    drunk_x,
                    drunk_y,
                );
                build_data.map.tiles[drunk_idx] = TileType::DownStairs;

                let stagger_direction = roll_dice(rng, 1, 4);
                if stagger_direction == 1 {
                    if drunk_x > 2 {
                        drunk_x = drunk_x - 1;
                    }
                } else if stagger_direction == 2 {
                    if drunk_x < width - 2 {
                        drunk_x = drunk_x + 1;
                    }
                } else if stagger_direction == 3 {
                    if drunk_y > 2 {
                        drunk_y = drunk_y - 1;
                    }
                } else {
                    if drunk_y < height - 2 {
                        drunk_y = drunk_y + 1;
                    }
                }
                step = step + 1;
            }
            if did_something {
                build_data.take_snapshot();
            }

            // clear the walkers' transient marks back to floor
            let n = build_data.map.tiles.len();
            let mut i: usize = 0;
            while i < n
                invariant
                    build_data.wf(),
                    build_data.map.width == old(build_data).map.width,
                    build_data.map.height == old(build_data).map.height,
                    build_data.map.depth == old(build_data).map.depth,
                    build_data.map.blocked == old(build_data).map.blocked,
                    build_data.width == old(build_data).width,
                    build_data.height == old(build_data).height,
                    build_data.spawn_list == old(build_data).spawn_list,
                    build_data.starting_position == old(build_data).starting_position,
                    build_data.rooms == old(build_data).rooms,
                    build_data.corridors == old(build_data).corridors,
                    !crate::SHOW_MAPGEN_VISUALIZER ==> build_data.history == old(
                        build_data,
                    ).history,
                    n == build_data.map.tiles@.len(),
                    i <= n,
                    forall|k: int|
                        0 <= k < build_data.map.tiles@.len() ==> build_data.map.tiles@[k] == old(
                            build_data,
                        ).map.tiles@[k] || #[trigger] build_data.map.tiles@[k] == TileType::Floor
                            || build_data.map.tiles@[k] == TileType::DownStairs,
                    forall|k: int|
                        0 <= k < i ==> #[trigger] build_data.map.tiles@[k] != TileType::DownStairs,
                    build_data.map.tiles@[(h / 2) * w + w / 2] == TileType::Floor
                        || build_data.map.tiles@[(h / 2) * w + w / 2] == TileType::DownStairs,
                    (h / 2) * w + w / 2 < i ==> build_data.map.tiles@[(h / 2) * w + w / 2]
                        == TileType::Floor,
                decreases n - i,
            {
                if build_data.map.tiles[i] == TileType::DownStairs {
                    build_data.map.tiles[i] = TileType::Floor;
                }
                i = i + 1;
            }
            floor_tile_count = count_floor(&build_data.map.tiles);
        }

        // Deterministic fallback: if the stochastic walk hit the walker cap
        // before reaching the target, carve remaining cells in scan order.
        if floor_tile_count < desired_floor_tiles {
            let n = build_data.map.tiles.len();
            let mut i: usize = 0;
            while i < n && floor_tile_count < desired_floor_tiles
                invariant
                    build_data.wf(),
                    build_data.map.width == old(build_data).map.width,
                    build_data.map.height == old(build_data).map.height,
                    build_data.map.depth == old(build_data).map.depth,
                    build_data.map.blocked == old(build_data).map.blocked,
                    build_data.width == old(build_data).width,
                    build_data.height == old(build_data).height,
                    build_data.spawn_list == old(build_data).spawn_list,
                    build_data.starting_position == old(build_data).starting_position,
                    build_data.rooms == old(build_data).rooms,
                    build_data.corridors == old(build_data).corridors,
                    !crate::SHOW_MAPGEN_VISUALIZER ==> build_data.history == old(
                        build_data,
                    ).history,
                    n == build_data.map.tiles@.len(),
                    i <= n,
                    forall|k: int|
                        0 <= k < build_data.map.tiles@.len() ==> build_data.map.tiles@[k] == old(
                            build_data,
                        ).map.tiles@[k] || #[trigger] build_data.map.tiles@[k] == TileType::Floor,
                    (forall|k: int|
                        0 <= k < old(build_data).map.tiles@.len() ==> old(build_data).map.tiles@[k]
                            != TileType::DownStairs) ==> (forall|k: int|
                        0 <= k < build_data.map.tiles@.len() ==> #[trigger] build_data.map.tiles@[k]
                            != TileType::DownStairs),
                    build_data.map.tiles@[(h / 2) * w + w / 2] == TileType::Floor,
                    floor_tile_count == floor_count(build_data.map.tiles@),
                    floor_count(seeded) >= desired_floor_tiles ==> build_data.map.tiles@ == seeded,
                    floor_tile_count < desired_floor_tiles ==> forall|k: int|
                        0 <= k < i ==> #[trigger] build_data.map.tiles@[k] == TileType::Floor,
                decreases n - i,
            {
                if build_data.map.tiles[i] != TileType::Floor {
                    proof {
                        lemma_floor_count_update(build_data.map.tiles@, i as int, TileType::Floor);
                        lemma_floor_count_bounds(build_data.map.tiles@);
                    }
                    build_data.map.tiles[i] = TileType::Floor;
                    floor_tile_count = floor_tile_count + 1;
                }
                i = i + 1;
            }
            if floor_tile_count < desired_floor_tiles {
                proof {
                    lemma_floor_count_all(build_data.map.tiles@);
                }
                assert(false);
            }
        }
        Ok(())
    }
}

} // verus!
