use map_builders::area_starting_point::{AreaStartingPosition, XStart, YStart};
use map_builders::builder::{random_builder, BuilderChain, BuilderMap, InitialStage, MetaStage};
use map_builders::cull_unreachable::CullUnreachable;
use map_builders::distant_exit::DistantExit;
use map_builders::drunkard::DrunkardsWalkBuilder;
use map_builders::geometry::{Position, Rect};
use map_builders::map::{Grid, TileType};
use map_builders::reachability::floor_distances;
use map_builders::room_based_stairs::RoomBasedStairs;
use map_builders::room_corridor_spawner::CorridorSpawner;
use map_builders::voronoi_spawning::VoronoiSpawning;
use map_builders::BuildError;
use rltk::RandomNumberGenerator;

fn blank_context(width: i32, height: i32) -> BuilderMap {
    BuilderMap {
        spawn_list: Vec::new(),
        map: Grid::new(1, width, height),
        starting_position: None,
        rooms: None,
        corridors: None,
        history: Vec::new(),
        width,
        height,
    }
}

fn idx(width: i32, x: i32, y: i32) -> usize {
    (y * width + x) as usize
}

#[test]
fn area_start_single_floor_left_top() {
    let mut rng = RandomNumberGenerator::seeded(7);
    let mut bd = blank_context(10, 10);
    bd.map.tiles[idx(10, 5, 5)] = TileType::Floor;
    let stage = AreaStartingPosition::new(XStart::LEFT, YStart::TOP);
    assert_eq!(stage.build_map(&mut rng, &mut bd), Ok(()));
    assert_eq!(bd.starting_position, Some(Position { x: 5, y: 5 }));
}

#[test]
fn area_start_single_floor_any_anchor() {
    for (ax, ay) in [
        (XStart::LEFT, YStart::TOP),
        (XStart::CENTER, YStart::CENTER),
        (XStart::RIGHT, YStart::BOTTOM),
    ] {
        let mut rng = RandomNumberGenerator::seeded(7);
        let mut bd = blank_context(10, 10);
        bd.map.tiles[idx(10, 5, 5)] = TileType::Floor;
        let stage = AreaStartingPosition::new(ax, ay);
        assert_eq!(stage.build_map(&mut rng, &mut bd), Ok(()));
        assert_eq!(bd.starting_position, Some(Position { x: 5, y: 5 }));
    }
}

#[test]
fn area_start_picks_nearest_floor() {
    let mut rng = RandomNumberGenerator::seeded(3);
    let mut bd = blank_context(10, 10);
    bd.map.tiles[idx(10, 1, 1)] = TileType::Floor;
    bd.map.tiles[idx(10, 8, 8)] = TileType::Floor;
    let stage = AreaStartingPosition::new(XStart::LEFT, YStart::TOP);
    assert_eq!(stage.build_map(&mut rng, &mut bd), Ok(()));
    assert_eq!(bd.starting_position, Some(Position { x: 1, y: 1 }));
}

#[test]
fn area_start_fails_without_floor() {
    let mut rng = RandomNumberGenerator::seeded(3);
    let mut bd = blank_context(10, 10);
    let stage = AreaStartingPosition::new(XStart::CENTER, YStart::CENTER);
    assert_eq!(stage.build_map(&mut rng, &mut bd), Err(BuildError::NoFloorTiles));
    assert!(bd.starting_position.is_none());
}

#[test]
fn cull_removes_disconnected_region() {
    let mut rng = RandomNumberGenerator::seeded(1);
    let mut bd = blank_context(12, 12);
    // region A around (1,1); region B around (9,9); far apart
    let region_a = [(1, 1), (2, 1), (1, 2)];
    let region_b = [(9, 9), (10, 9), (9, 10), (10, 10)];
    for (x, y) in region_a {
        bd.map.tiles[idx(12, x, y)] = TileType::Floor;
    }
    for (x, y) in region_b {
        bd.map.tiles[idx(12, x, y)] = TileType::Floor;
    }
    bd.starting_position = Some(Position { x: 1, y: 1 });
    let stage = CullUnreachable::new();
    assert_eq!(stage.build_map(&mut rng, &mut bd), Ok(()));
    for (x, y) in region_a {
        assert_eq!(bd.map.tiles[idx(12, x, y)], TileType::Floor);
    }
    for (x, y) in region_b {
        assert_eq!(bd.map.tiles[idx(12, x, y)], TileType::Wall);
    }
    let floor_count = bd.map.tiles.iter().filter(|t| **t == TileType::Floor).count();
    assert_eq!(floor_count, region_a.len());
}

#[test]
fn cull_fails_without_start() {
    let mut rng = RandomNumberGenerator::seeded(1);
    let mut bd = blank_context(8, 8);
    bd.map.tiles[idx(8, 2, 2)] = TileType::Floor;
    let stage = CullUnreachable::new();
    assert_eq!(stage.build_map(&mut rng, &mut bd), Err(BuildError::NoStartingPosition));
}

#[test]
fn cull_fails_on_wall_start() {
    let mut rng = RandomNumberGenerator::seeded(1);
    let mut bd = blank_context(8, 8);
    bd.map.tiles[idx(8, 2, 2)] = TileType::Floor;
    bd.starting_position = Some(Position { x: 5, y: 5 });
    let stage = CullUnreachable::new();
    assert_eq!(stage.build_map(&mut rng, &mut bd), Err(BuildError::InvalidStartingPosition));
}

#[test]
fn room_stairs_at_last_room_center() {
    let mut rng = RandomNumberGenerator::seeded(2);
    let mut bd = blank_context(20, 20);
    let r1 = Rect::new(1, 1, 4, 4);
    let r2 = Rect::new(10, 10, 6, 6);
    bd.rooms = Some(vec![r1, r2]);
    let stage = RoomBasedStairs::new();
    assert_eq!(stage.build_map(&mut rng, &mut bd), Ok(()));
    let c2 = r2.center();
    let c1 = r1.center();
    assert_eq!(bd.map.tiles[idx(20, c2.0, c2.1)], TileType::DownStairs);
    assert_ne!(bd.map.tiles[idx(20, c1.0, c1.1)], TileType::DownStairs);
}

#[test]
fn room_stairs_fails_without_rooms() {
    let mut rng = RandomNumberGenerator::seeded(2);
    let mut bd = blank_context(20, 20);
    let stage = RoomBasedStairs::new();
    assert_eq!(stage.build_map(&mut rng, &mut bd), Err(BuildError::NoRooms));
    bd.rooms = Some(Vec::new());
    assert_eq!(stage.build_map(&mut rng, &mut bd), Err(BuildError::NoRooms));
}

#[test]
fn room_stairs_fails_on_out_of_bounds_room() {
    let mut rng = RandomNumberGenerator::seeded(2);
    let mut bd = blank_context(20, 20);
    bd.rooms = Some(vec![Rect::new(30, 30, 10, 10)]);
    let stage = RoomBasedStairs::new();
    assert_eq!(stage.build_map(&mut rng, &mut bd), Err(BuildError::RoomOutOfBounds));
}

#[test]
fn drunkard_fails_on_tiny_grid() {
    let mut rng = RandomNumberGenerator::seeded(4);
    let mut chain = BuilderChain::new(1, 3, 3);
    let starter = DrunkardsWalkBuilder::open_area();
    assert_eq!(chain.start_with(InitialStage::DrunkardsWalk(*starter)), Ok(()));
    assert_eq!(chain.build_map(&mut rng), Err(BuildError::MapTooSmall));
}

#[test]
fn corridor_spawner_spawns_on_corridor_cells() {
    let mut rng = RandomNumberGenerator::seeded(11);
    let mut bd = blank_context(20, 20);
    let corridor: Vec<usize> = (1..15).map(|x| idx(20, x, 3)).collect();
    for &c in &corridor {
        bd.map.tiles[c] = TileType::Floor;
    }
    bd.corridors = Some(vec![corridor.clone()]);
    let stage = CorridorSpawner::new();
    assert_eq!(stage.build_map(&mut rng, &mut bd), Ok(()));
    for (cell, _name) in &bd.spawn_list {
        assert!(corridor.contains(cell));
    }
}

#[test]
fn corridor_spawner_fails_without_corridors() {
    let mut rng = RandomNumberGenerator::seeded(11);
    let mut bd = blank_context(20, 20);
    let stage = CorridorSpawner::new();
    assert_eq!(stage.build_map(&mut rng, &mut bd), Err(BuildError::NoCorridors));
}

#[test]
fn voronoi_spawning_spawns_on_floor_only() {
    let mut rng = RandomNumberGenerator::seeded(5);
    let mut bd = blank_context(16, 16);
    for y in 2..10 {
        for x in 2..12 {
            bd.map.tiles[idx(16, x, y)] = TileType::Floor;
        }
    }
    let before = bd.map.tiles.clone();
    let stage = VoronoiSpawning::new();
    assert_eq!(stage.build_map(&mut rng, &mut bd), Ok(()));
    assert_eq!(bd.map.tiles, before);
    for (cell, _name) in &bd.spawn_list {
        assert_eq!(bd.map.tiles[*cell], TileType::Floor);
    }
}

#[test]
fn corridor_spawner_always_spawns_at_depth_four() {
    let mut rng = RandomNumberGenerator::seeded(13);
    let mut bd = blank_context(20, 20);
    bd.map.depth = 4;
    let corridor: Vec<usize> = (1..10).map(|x| idx(20, x, 5)).collect();
    for &c in &corridor {
        bd.map.tiles[c] = TileType::Floor;
    }
    bd.corridors = Some(vec![corridor]);
    let stage = CorridorSpawner::new();
    assert_eq!(stage.build_map(&mut rng, &mut bd), Ok(()));
    assert!(!bd.spawn_list.is_empty());
}

#[test]
fn voronoi_spawning_always_spawns_at_depth_four() {
    let mut rng = RandomNumberGenerator::seeded(17);
    let mut bd = blank_context(16, 16);
    bd.map.depth = 4;
    bd.map.tiles[idx(16, 7, 7)] = TileType::Floor;
    let stage = VoronoiSpawning::new();
    assert_eq!(stage.build_map(&mut rng, &mut bd), Ok(()));
    assert!(!bd.spawn_list.is_empty());
    for (cell, _name) in &bd.spawn_list {
        assert_eq!(bd.map.tiles[*cell], TileType::Floor);
    }
}

#[test]
fn drunkard_leaves_grid_at_target_unchanged() {
    let mut rng = RandomNumberGenerator::seeded(21);
    let mut bd = blank_context(10, 10);
    for t in bd.map.tiles.iter_mut() {
        *t = TileType::Floor;
    }
    let before = bd.map.tiles.clone();
    let stage = DrunkardsWalkBuilder::open_area();
    assert_eq!(stage.build_map(&mut rng, &mut bd), Ok(()));
    assert_eq!(bd.map.tiles, before);
}

#[test]
fn distant_exit_marks_far_end_of_corridor() {
    let mut rng = RandomNumberGenerator::seeded(9);
    let mut bd = blank_context(8, 4);
    for x in 1..=5 {
        bd.map.tiles[idx(8, x, 1)] = TileType::Floor;
    }
    bd.starting_position = Some(Position { x: 1, y: 1 });
    let stage = DistantExit::new();
    assert_eq!(stage.build_map(&mut rng, &mut bd), Ok(()));
    assert_eq!(bd.map.tiles[idx(8, 5, 1)], TileType::DownStairs);
}

#[test]
fn drunkard_open_area_reaches_half_floor() {
    // target fraction one half on a 50x50 grid: the walk must stop with at
    // least 1250 floor cells, for any seed
    for seed in [0u64, 42, 1234567] {
        let mut rng = RandomNumberGenerator::seeded(seed);
        let mut chain = BuilderChain::new(1, 50, 50);
        let starter = DrunkardsWalkBuilder::open_area();
        assert_eq!(chain.start_with(InitialStage::DrunkardsWalk(*starter)), Ok(()));
        assert_eq!(chain.build_map(&mut rng), Ok(()));
        let floors = chain
            .build_data
            .map
            .tiles
            .iter()
            .filter(|t| **t == TileType::Floor)
            .count();
        assert!(floors >= 1250, "only {} floor cells carved", floors);
    }
}

#[test]
fn chain_fails_without_starter() {
    let mut rng = RandomNumberGenerator::seeded(1);
    let mut chain = BuilderChain::new(1, 10, 10);
    assert_eq!(chain.build_map(&mut rng), Err(BuildError::NoStartingBuilder));
}

#[test]
fn chain_rejects_second_starter() {
    let mut chain = BuilderChain::new(1, 10, 10);
    let a = DrunkardsWalkBuilder::open_area();
    let b = DrunkardsWalkBuilder::open_halls();
    assert_eq!(chain.start_with(InitialStage::DrunkardsWalk(*a)), Ok(()));
    assert_eq!(
        chain.start_with(InitialStage::DrunkardsWalk(*b)),
        Err(BuildError::StarterAlreadySet)
    );
}

#[test]
fn chain_meta_stage_precondition_failure_aborts() {
    let mut rng = RandomNumberGenerator::seeded(1);
    let mut chain = BuilderChain::new(1, 20, 20);
    let starter = DrunkardsWalkBuilder::winding_passages();
    assert_eq!(chain.start_with(InitialStage::DrunkardsWalk(*starter)), Ok(()));
    chain.with(MetaStage::RoomStairs(*RoomBasedStairs::new()));
    assert_eq!(chain.build_map(&mut rng), Err(BuildError::NoRooms));
}

#[test]
fn generated_levels_satisfy_structural_guarantees() {
    let mut total_spawns = 0usize;
    for seed in [1u64, 2, 3, 99] {
        let mut rng = RandomNumberGenerator::seeded(seed);
        let mut chain = random_builder(1, &mut rng, 50, 50);
        assert_eq!(chain.build_map(&mut rng), Ok(()));
        let bd = &chain.build_data;
        let width = bd.map.width;

        // the starting position references a floor cell
        let start = bd.starting_position.expect("no starting position");
        let start_idx = idx(width, start.x, start.y);
        assert_eq!(bd.map.tiles[start_idx], TileType::Floor);

        // exactly one exit, on a carved cell, distinct from the start
        let exits: Vec<usize> = (0..bd.map.tiles.len())
            .filter(|i| bd.map.tiles[*i] == TileType::DownStairs)
            .collect();
        assert_eq!(exits.len(), 1);
        let exit_idx = exits[0];
        assert_ne!(exit_idx, start_idx);

        // every spawn request references a carved (non-wall) cell
        for (cell, _name) in &bd.spawn_list {
            assert_ne!(bd.map.tiles[*cell], TileType::Wall);
        }

        // every floor cell is reachable from the start once the exit is
        // counted as passable
        let mut open_tiles = bd.map.tiles.clone();
        open_tiles[exit_idx] = TileType::Floor;
        let dist = floor_distances(&open_tiles, bd.map.width, bd.map.height, start_idx);
        for i in 0..open_tiles.len() {
            if open_tiles[i] == TileType::Floor {
                assert!(dist[i] >= 0, "floor cell {} unreachable", i);
            }
        }

        // history is only recorded when the visualizer flag is on
        assert!(bd.history.is_empty());
        total_spawns += bd.spawn_list.len();
    }
    // across several seeds the dice must sometimes exceed the spawn
    // threshold: a generator stuck at its minimum would spawn nothing
    assert!(total_spawns > 0);
}

#[test]
fn identical_seeds_build_identical_levels() {
    let build = |seed: u64| {
        let mut rng = RandomNumberGenerator::seeded(seed);
        let mut chain = random_builder(3, &mut rng, 40, 30);
        chain.build_map(&mut rng).expect("build failed");
        (chain.build_data.map.tiles, chain.build_data.spawn_list)
    };
    let (tiles_a, spawns_a) = build(777);
    let (tiles_b, spawns_b) = build(777);
    assert_eq!(tiles_a, tiles_b);
    assert_eq!(spawns_a, spawns_b);
    let (tiles_c, _) = build(778);
    // a different seed is allowed to differ; byte-identical output is only
    // promised for identical seeds
    let _ = tiles_c;
}
