//! The shared build context and the builder chain: one initial stage carves
//! the base layout, then meta stages refine it in order, all mutating one
//! context owned by the chain for the duration of the run. The composer
//! assembles a randomized chain whose finished context provably has a
//! reachable start, a unique exit, and a spawn list on carved cells.

use vstd::prelude::*;
use crate::area_starting_point::{AreaStartingPosition, XStart, YStart};
use crate::cull_unreachable::CullUnreachable;
use crate::distant_exit::DistantExit;
use crate::drunkard::DrunkardsWalkBuilder;
use crate::geometry::{Position, Rect};
use crate::map::{Grid, TileType};
use crate::reachability::{
    is_floor, lemma_grid_idx, lemma_reachable_sym, lemma_reachable_trans, reachable,
};
use crate::rng::roll_dice;
use crate::room_based_stairs::RoomBasedStairs;
use crate::room_corridor_spawner::CorridorSpawner;
use crate::voronoi_spawning::VoronoiSpawning;
use crate::BuildError;
use crate::SHOW_MAPGEN_VISUALIZER;

verus! {

/// The mutable aggregate threaded through the whole pipeline: the grid, the
/// optional starting position, optional rooms and corridors, the pending
/// spawn requests, and a diagnostic history of grid snapshots.
pub struct BuilderMap {
    pub spawn_list: Vec<(usize, String)>,
    pub map: Grid,
    pub starting_position: Option<Position>,
    pub rooms: Option<Vec<Rect>>,
    pub corridors: Option<Vec<Vec<usize>>>,
    pub history: Vec<Grid>,
    pub width: i32,
    pub height: i32,
}

impl BuilderMap {
    /// The context's grid is well formed and the cached dimensions agree
    /// with it.
    pub open spec fn wf(self) -> bool {
        &&& self.map.wf()
        &&& self.width == self.map.width
        &&& self.height == self.map.height
    }

    /// Record a copy of the grid for visualization playback; free apart from
    /// the flag check when the visualizer is off.
    pub fn take_snapshot(&mut self)
        ensures
            final(self).spawn_list == old(self).spawn_list,
            final(self).map == old(self).map,
            final(self).starting_position == old(self).starting_position,
            final(self).rooms == old(self).rooms,
            final(self).corridors == old(self).corridors,
            final(self).width == old(self).width,
            final(self).height == old(self).height,
            !SHOW_MAPGEN_VISUALIZER ==> final(self).history == old(self).history,
            SHOW_MAPGEN_VISUALIZER ==> final(self).history@.len() == old(self).history@.len() + 1,
    {
        if SHOW_MAPGEN_VISUALIZER {
            let snapshot = self.map.clone();
            self.history.push(snapshot);
        }
    }
}

/// A stage that establishes the base layout on a blank grid.
pub enum InitialStage {
    DrunkardsWalk(DrunkardsWalkBuilder),
}

/// A stage that refines an existing build context.
pub enum MetaStage {
    AreaStart(AreaStartingPosition),
    Cull(CullUnreachable),
    Exit(DistantExit),
    RoomStairs(RoomBasedStairs),
    CorridorSpawn(CorridorSpawner),
    VoronoiSpawn(VoronoiSpawning),
    DrunkardsWalk(DrunkardsWalkBuilder),
}

/// Cell `e` holds the one and only down-stairs of the grid.
pub open spec fn stairs_at(t: Seq<TileType>, e: int) -> bool {
    &&& 0 <= e < t.len()
    &&& t[e] == TileType::DownStairs
    &&& forall|j: int| 0 <= j < t.len() && j != e ==> t[j] != TileType::DownStairs
}

/// No cell of the grid holds down-stairs.
pub open spec fn no_stairs(t: Seq<TileType>) -> bool {
    forall|k: int| 0 <= k < t.len() ==> t[k] != TileType::DownStairs
}

/// The starting position references an in-bounds floor cell.
pub open spec fn start_ok(bd: BuilderMap) -> bool {
    bd.starting_position matches Some(p) && {
        let w = bd.map.width as int;
        &&& 0 <= p.x < w
        &&& 0 <= p.y < bd.map.height as int
        &&& is_floor(bd.map.tiles@, p.y * w + p.x)
    }
}

/// Every floor cell of the grid is reachable from the starting position.
pub open spec fn all_floor_reachable(bd: BuilderMap) -> bool {
    bd.starting_position matches Some(p) && {
        let w = bd.map.width as int;
        let h = bd.map.height as int;
        forall|i: int|
            is_floor(bd.map.tiles@, i) ==> reachable(bd.map.tiles@, w, h, p.y * w + p.x, i)
    }
}

/// Every pending spawn request references a floor cell of `t`.
pub open spec fn spawns_on_floor(t: Seq<TileType>, spawns: Seq<(usize, String)>) -> bool {
    forall|k: int| 0 <= k < spawns.len() ==> is_floor(t, #[trigger] spawns[k].0 as int)
}

/// Structural guarantees of a finished level: a starting position on a
/// passable cell, a unique exit on a reachable carved cell, distinct from
/// the start whenever any other carved cell exists, every floor cell
/// reachable from the start, and a spawn list referencing carved cells only.
/// Reachability is judged on the grid with the exit counted as passable,
/// since the exit itself was carved floor before the stairs were stamped.
/// A start that coincides with the exit (a start tile that is not floor)
/// can only happen on the degenerate level whose single carved cell is
/// both: whenever any second carved cell exists, the two are distinct and
/// the start tile is floor.
pub open spec fn level_ok(bd: BuilderMap) -> bool {
    let w = bd.map.width as int;
    let h = bd.map.height as int;
    let t = bd.map.tiles@;
    &&& bd.wf()
    &&& bd.starting_position matches Some(p) && {
        let s = p.y * w + p.x;
        &&& 0 <= p.x < w
        &&& 0 <= p.y < h
        &&& exists|e: int|
            #![trigger t.update(e, TileType::Floor)]
            {
                let open_t = t.update(e, TileType::Floor);
                &&& stairs_at(t, e)
                &&& is_floor(open_t, s)
                &&& reachable(open_t, w, h, s, e)
                &&& (forall|i: int| is_floor(open_t, i) ==> reachable(open_t, w, h, s, i))
                &&& ((exists|j: int| j != s && is_floor(open_t, j)) ==> s != e)
                &&& (s != e ==> t[s] == TileType::Floor)
                &&& (s == e ==> forall|j: int| j != e ==> !is_floor(open_t, j))
                &&& spawns_on_floor(open_t, bd.spawn_list@)
            }
    }
}

/// The canonical organic pipeline on a fresh context: a random-walk
/// excavator, centre seeding, reachability culling, a re-seeded start,
/// region-based spawning, and a distance-based exit.
pub open spec fn is_standard_pipeline(chain: BuilderChain) -> bool {
    &&& chain.starter matches Some(InitialStage::DrunkardsWalk(_))
    &&& chain.builders@.len() == 5
    &&& chain.builders@[0] is AreaStart
    &&& chain.builders@[1] is Cull
    &&& chain.builders@[2] is AreaStart
    &&& chain.builders@[3] is VoronoiSpawn
    &&& chain.builders@[4] is Exit
    &&& chain.build_data.wf()
    &&& chain.build_data.map.width >= 4
    &&& chain.build_data.map.height >= 4
    &&& chain.build_data.spawn_list@.len() == 0
    &&& no_stairs(chain.build_data.map.tiles@)
}

/// What holds of the context before meta stage `i` of the standard
/// pipeline runs (and, for `i >= 5`, of the finished context).
spec fn stage_inv(bd: BuilderMap, i: int) -> bool {
    let w = bd.map.width as int;
    let h = bd.map.height as int;
    let t = bd.map.tiles@;
    if i >= 5 {
        level_ok(bd)
    } else {
        &&& bd.wf()
        &&& w >= 4
        &&& h >= 4
        &&& no_stairs(t)
        &&& (i <= 2 ==> bd.spawn_list@.len() == 0)
        &&& (i == 0 ==> is_floor(t, (h / 2) * w + w / 2))
        &&& (i >= 1 ==> start_ok(bd))
        &&& (i >= 2 ==> all_floor_reachable(bd))
        &&& (i >= 3 ==> spawns_on_floor(t, bd.spawn_list@))
    }
}

/// An ordered pipeline: at most one initial stage, then meta stages applied
/// in sequence over the shared context. Execution is one-shot.
pub struct BuilderChain {
    pub starter: Option<InitialStage>,
    pub builders: Vec<MetaStage>,
    pub build_data: BuilderMap,
}

impl BuilderChain {
    /// A chain with no stages over a fresh all-wall grid of the given
    /// dimensions and depth.
    pub fn new(new_depth: i32, width: i32, height: i32) -> (chain: BuilderChain)
        requires
            1 <= width,
            1 <= height,
            width * height <= i32::MAX,
        ensures
            chain.starter is None,
            chain.builders@.len() == 0,
            chain.build_data.wf(),
            chain.build_data.map.width == width,
            chain.build_data.map.height == height,
            chain.build_data.map.depth == new_depth,
            chain.build_data.width == width,
            chain.build_data.height == height,
            chain.build_data.spawn_list@.len() == 0,
            chain.build_data.starting_position is None,
            chain.build_data.rooms is None,
            chain.build_data.corridors is None,
            chain.build_data.history@.len() == 0,
            forall|i: int|
                0 <= i < chain.build_data.map.tiles@.len() ==> chain.build_data.map.tiles@[i]
                    == TileType::Wall,
    {
        BuilderChain {
            starter: None,
            builders: Vec::new(),
            build_data: BuilderMap {
                spawn_list: Vec::new(),
                map: Grid::new(new_depth, width, height),
                starting_position: None,
                rooms: None,
                corridors: None,
                history: Vec::new(),
                width,
                height,
            },
        }
    }

    /// Set the initial stage; there can be only one.
    pub fn start_with(&mut self, starter: InitialStage) -> (r: Result<(), BuildError>)
        ensures
            old(self).starter is None ==> r is Ok && final(self).starter == Some(starter)
                && final(self).builders == old(self).builders && final(self).build_data == old(
                self,
            ).build_data,
            old(self).starter is Some ==> r == Err::<(), BuildError>(BuildError::StarterAlreadySet)
                && *final(self) == *old(self),
    {
        match &self.starter {
            None => {
                self.starter = Some(starter);
                Ok(())
            },
            Some(_) => Err(BuildError::StarterAlreadySet),
        }
    }

    /// Append a meta stage to the chain.
    pub fn with(&mut self, metabuilder: MetaStage)
        ensures
            final(self).starter == old(self).starter,
            final(self).build_data == old(self).build_data,
            final(self).builders@ == old(self).builders@.push(metabuilder),
    {
        self.builders.push(metabuilder);
    }

    /// Execute the chain: the initial stage once, then each meta stage in
    /// order, short-circuiting on the first failing stage. A chain shaped by
    /// the composer always succeeds and leaves a context satisfying the
    /// structural level guarantees.
    #[verifier::loop_isolation(false)]
    pub fn build_map(&mut self, rng: &mut rltk::RandomNumberGenerator) -> (r: Result<
        (),
        BuildError,
    >)
        requires
            old(self).build_data.wf(),
        ensures
            final(self).build_data.wf(),
            final(self).starter == old(self).starter,
            final(self).builders == old(self).builders,
            old(self).starter is None ==> r == Err::<(), BuildError>(BuildError::NoStartingBuilder)
                && *final(self) == *old(self),
            is_standard_pipeline(*old(self)) ==> r is Ok && level_ok(final(self).build_data),
    {
        let ghost std_pipe = is_standard_pipeline(*old(self));
        let starter_result = match &self.starter {
            None => {
                return Err(BuildError::NoStartingBuilder);
            },
            Some(InitialStage::DrunkardsWalk(d)) => d.build_map(rng, &mut self.build_data),
        };
        match starter_result {
            Err(e) => {
                return Err(e);
            },
            Ok(()) => {},
        }
        proof {
            if std_pipe {
                let w = self.build_data.map.width as int;
                let h = self.build_data.map.height as int;
                lemma_grid_idx(w, h, w / 2, h / 2);
                assert(stage_inv(self.build_data, 0));
            }
        }
        let n = self.builders.len();
        let mut i: usize = 0;
        while i < n
            invariant
                n == self.builders@.len(),
                i <= n,
                self.builders == old(self).builders,
                self.starter == old(self).starter,
                self.build_data.wf(),
                std_pipe == is_standard_pipeline(*old(self)),
                std_pipe ==> n == 5 && stage_inv(self.build_data, i as int),
            decreases n - i,
        {
            let step_result = match &self.builders[i] {
                MetaStage::AreaStart(b) => {
                    let ghost pre = self.build_data;
                    let rr = b.build_map(rng, &mut self.build_data);
                    proof {
                        if std_pipe {
                            if i == 0 {
                                assert(pre.map.tiles@[(pre.map.height as int / 2) * (
                                pre.map.width as int) + pre.map.width as int / 2]
                                    == TileType::Floor);
                                assert(rr is Ok);
                                let p1 = self.build_data.starting_position->Some_0;
                                lemma_grid_idx(
                                    pre.map.width as int,
                                    pre.map.height as int,
                                    p1.x as int,
                                    p1.y as int,
                                );
                                assert(stage_inv(self.build_data, 1));
                            } else {
                                let p0 = pre.starting_position->Some_0;
                                let w = pre.map.width as int;
                                let h = pre.map.height as int;
                                let s0 = p0.y * w + p0.x;
                                assert(pre.map.tiles@[s0] == TileType::Floor);
                                assert(rr is Ok);
                                let p1 = self.build_data.starting_position->Some_0;
                                let s1 = p1.y * w + p1.x;
                                let t = self.build_data.map.tiles@;
                                lemma_grid_idx(w, h, p1.x as int, p1.y as int);
                                assert(is_floor(t, s1));
                                assert forall|c: int| is_floor(t, c) implies reachable(
                                    t,
                                    w,
                                    h,
                                    s1,
                                    c,
                                ) by {
                                    assert(reachable(t, w, h, s0, s1));
                                    lemma_reachable_sym(t, w, h, s0, s1);
                                    assert(reachable(t, w, h, s0, c));
                                    lemma_reachable_trans(t, w, h, s1, s0, c);
                                }
                                assert(stage_inv(self.build_data, 3));
                            }
                        }
                    }
                    rr
                },
                MetaStage::Cull(b) => {
                    let rr = b.build_map(rng, &mut self.build_data);
                    proof {
                        if std_pipe {
                            assert(i == 1);
                            assert(rr is Ok);
                            assert(stage_inv(self.build_data, 2));
                        }
                    }
                    rr
                },
                MetaStage::VoronoiSpawn(b) => {
                    let rr = b.build_map(rng, &mut self.build_data);
                    proof {
                        if std_pipe {
                            assert(i == 3);
                            assert(rr is Ok);
                            assert(stage_inv(self.build_data, 4));
                        }
                    }
                    rr
                },
                MetaStage::Exit(b) => {
                    let ghost pre = self.build_data;
                    let rr = b.build_map(rng, &mut self.build_data);
                    proof {
                        if std_pipe {
                            assert(i == 4);
                            assert(rr is Ok);
                            let w = pre.map.width as int;
                            let h = pre.map.height as int;
                            let oldt = pre.map.tiles@;
                            let p = pre.starting_position->Some_0;
                            let s = p.y * w + p.x;
                            let e = choose|e: int|
                                #![trigger oldt.update(e, TileType::DownStairs)]
                                {
                                    &&& 0 <= e < oldt.len()
                                    &&& oldt[e] == TileType::Floor
                                    &&& reachable(oldt, w, h, s, e)
                                    &&& self.build_data.map.tiles@ == oldt.update(
                                        e,
                                        TileType::DownStairs,
                                    )
                                    &&& ((exists|j: int|
                                        0 <= j < oldt.len() && j != s && oldt[j]
                                            == TileType::Floor && reachable(oldt, w, h, s, j))
                                        ==> e != s)
                                };
                            let t = self.build_data.map.tiles@;
                            assert(t.update(e, TileType::Floor) =~= oldt);
                            assert(stairs_at(t, e));
                            assert(is_floor(oldt, s));
                            if exists|j: int| j != s && is_floor(oldt, j) {
                                let j = choose|j: int| j != s && is_floor(oldt, j);
                                assert(reachable(oldt, w, h, s, j));
                                assert(e != s);
                            }
                            if s != e {
                                assert(t[s] == oldt[s]);
                            }
                            if s == e {
                                assert forall|j: int| j != e implies !is_floor(
                                    t.update(e, TileType::Floor),
                                    j,
                                ) by {
                                    if is_floor(oldt, j) {
                                        assert(reachable(oldt, w, h, s, j));
                                        assert(e != s);
                                        assert(false);
                                    }
                                }
                            }
                            assert(level_ok(self.build_data));
                            assert(stage_inv(self.build_data, 5));
                        }
                    }
                    rr
                },
                MetaStage::RoomStairs(b) => {
                    let rr = b.build_map(rng, &mut self.build_data);
                    proof {
                        if std_pipe {
                            assert(false);
                        }
                    }
                    rr
                },
                MetaStage::CorridorSpawn(b) => {
                    let rr = b.build_map(rng, &mut self.build_data);
                    proof {
                        if std_pipe {
                            assert(false);
                        }
                    }
                    rr
                },
                MetaStage::DrunkardsWalk(b) => {
                    let rr = b.build_map(rng, &mut self.build_data);
                    proof {
                        if std_pipe {
                            assert(false);
                        }
                    }
                    rr
                },
            };
            match step_result {
                Err(e) => {
                    return Err(e);
                },
                Ok(()) => {},
            }
            i = i + 1;
        }
        Ok(())
    }
}

/// Draw a random horizontal and vertical anchor for a starting-position
/// stage.
fn random_start_position(rng: &mut rltk::RandomNumberGenerator) -> (r: (XStart, YStart)) {
    let xroll = roll_dice(rng, 1, 3);
    let x = if xroll == 1 {
        XStart::LEFT
    } else if xroll == 2 {
        XStart::CENTER
    } else {
        XStart::RIGHT
    };
    let yroll = roll_dice(rng, 1, 3);
    let y = if yroll == 1 {
        YStart::TOP
    } else if yroll == 2 {
        YStart::CENTER
    } else {
        YStart::BOTTOM
    };
    (x, y)
}

/// Assemble the organic-shape pipeline on a fresh chain: one of the five
/// random-walk configurations, then centre seeding, reachability culling, a
/// re-seeded start, region-based spawning, and a distance-based exit.
fn random_shape_builder(rng: &mut rltk::RandomNumberGenerator, builder: &mut BuilderChain)
    requires
        old(builder).starter is None,
        old(builder).builders@.len() == 0,
        old(builder).build_data.wf(),
        old(builder).build_data.map.width >= 4,
        old(builder).build_data.map.height >= 4,
        old(builder).build_data.spawn_list@.len() == 0,
        no_stairs(old(builder).build_data.map.tiles@),
    ensures
        is_standard_pipeline(*final(builder)),
        final(builder).build_data == old(builder).build_data,
{
    let roll = roll_dice(rng, 1, 5);
    let starter: Box<DrunkardsWalkBuilder> = if roll == 1 {
        DrunkardsWalkBuilder::open_area()
    } else if roll == 2 {
        DrunkardsWalkBuilder::open_halls()
    } else if roll == 3 {
        DrunkardsWalkBuilder::winding_passages()
    } else if roll == 4 {
        DrunkardsWalkBuilder::fat_passages()
    } else {
        DrunkardsWalkBuilder::fearful_symmetry()
    };
    // the chain is fresh, so setting its one initial stage cannot fail
    let _started = builder.start_with(InitialStage::DrunkardsWalk(*starter));
    builder.with(MetaStage::AreaStart(*AreaStartingPosition::new(XStart::CENTER, YStart::CENTER)));
    builder.with(MetaStage::Cull(*CullUnreachable::new()));
    let (start_x, start_y) = random_start_position(rng);
    builder.with(MetaStage::AreaStart(*AreaStartingPosition::new(start_x, start_y)));
    builder.with(MetaStage::VoronoiSpawn(*VoronoiSpawning::new()));
    builder.with(MetaStage::Exit(*DistantExit::new()));
}

/// Assemble a structurally valid, randomized pipeline for one level: the
/// sole externally invoked construction function. The returned chain's
/// `build_map` is guaranteed to succeed and to leave a context satisfying
/// the structural level guarantees.
pub fn random_builder(
    new_depth: i32,
    rng: &mut rltk::RandomNumberGenerator,
    width: i32,
    height: i32,
) -> (chain: BuilderChain)
    requires
        4 <= width,
        4 <= height,
        width * height <= i32::MAX,
    ensures
        is_standard_pipeline(chain),
        chain.build_data.map.depth == new_depth,
        chain.build_data.map.width == width,
        chain.build_data.map.height == height,
        chain.build_data.starting_position is None,
        chain.build_data.rooms is None,
        chain.build_data.corridors is None,
    {
    let mut builder = BuilderChain::new(new_depth, width, height);
    random_shape_builder(rng, &mut builder);
    builder
}

} // verus!
