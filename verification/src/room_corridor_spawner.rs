//! Corridor-based spawning: hand every corridor to the spawn-placement
//! collaborator, appending placement requests along the corridor cells.

use vstd::prelude::*;
use crate::builder::BuilderMap;
use crate::spawner::spawn_region;
use crate::BuildError;

verus! {

/// The cell index `x` lies on one of the corridors of `cs`.
pub open spec fn in_some_corridor(cs: Seq<Vec<usize>>, x: usize) -> bool {
    exists|c: int| 0 <= c < cs.len() && #[trigger] cs[c]@.contains(x)
}

pub struct CorridorSpawner {}

impl CorridorSpawner {
    pub fn new() -> (b: Box<CorridorSpawner>) {
        Box::new(CorridorSpawner {})
    }

    /// For each corridor in the corridor list, append entity placements on
    /// cells of that corridor; fails when no corridor list exists.
    #[verifier::loop_isolation(false)]
    pub fn build_map(
        &self,
        rng: &mut rltk::RandomNumberGenerator,
        build_data: &mut BuilderMap,
    ) -> (r: Result<(), BuildError>)
        requires
            old(build_data).wf(),
        ensures
            final(build_data).wf(),
            final(build_data).map == old(build_data).map,
            final(build_data).starting_position == old(build_data).starting_position,
            final(build_data).rooms == old(build_data).rooms,
            final(build_data).corridors == old(build_data).corridors,
            final(build_data).history == old(build_data).history,
            final(build_data).width == old(build_data).width,
            final(build_data).height == old(build_data).height,
            r is Ok <==> old(build_data).corridors is Some,
            r is Err ==> r == Err::<(), BuildError>(BuildError::NoCorridors) && *final(build_data)
                == *old(build_data),
            final(build_data).spawn_list@.len() >= old(build_data).spawn_list@.len(),
            forall|k: int|
                0 <= k < old(build_data).spawn_list@.len() ==> final(build_data).spawn_list@[k]
                    == old(build_data).spawn_list@[k],
            r is Ok ==> (old(build_data).corridors matches Some(cs) && forall|k: int|
                old(build_data).spawn_list@.len() <= k < final(build_data).spawn_list@.len()
                    ==> in_some_corridor(cs@, #[trigger] final(build_data).spawn_list@[k].0)),
            (old(build_data).corridors matches Some(cs) && cs@.len() > 0 && old(
                build_data,
            ).map.depth >= 4 && 0 < cs@[0]@.len() < i32::MAX) ==> final(build_data).spawn_list@.len()
                > old(build_data).spawn_list@.len(),
    {
        if build_data.corridors.is_none() {
            return Err(BuildError::NoCorridors);
        }
        let depth = build_data.map.depth;
        let n = match &build_data.corridors {
            Some(cs) => cs.len(),
            None => 0,
        };
        let mut c: usize = 0;
        while c < n
            invariant
                build_data.wf(),
                build_data.map == old(build_data).map,
                build_data.starting_position == old(build_data).starting_position,
                build_data.rooms == old(build_data).rooms,
                build_data.corridors == old(build_data).corridors,
                build_data.history == old(build_data).history,
                build_data.width == old(build_data).width,
                build_data.height == old(build_data).height,
                old(build_data).corridors matches Some(cs) && n == cs@.len(),
                c <= n,
                build_data.spawn_list@.len() >= old(build_data).spawn_list@.len(),
                forall|k: int|
                    0 <= k < old(build_data).spawn_list@.len() ==> build_data.spawn_list@[k] == old(
                        build_data,
                    ).spawn_list@[k],
                old(build_data).corridors matches Some(cs) && forall|k: int|
                    old(build_data).spawn_list@.len() <= k < build_data.spawn_list@.len()
                        ==> in_some_corridor(cs@, #[trigger] build_data.spawn_list@[k].0),
                (old(build_data).corridors matches Some(cs) && c >= 1 && old(
                    build_data,
                ).map.depth >= 4 && 0 < cs@[0]@.len() < i32::MAX) ==> build_data.spawn_list@.len()
                    > old(build_data).spawn_list@.len(),
            decreases n - c,
        {
            let ghost pre_len = build_data.spawn_list@.len() as int;
            match &build_data.corridors {
                Some(cs) => {
                    spawn_region(rng, &cs[c], depth, &mut build_data.spawn_list);
                },
                None => {},
            }
            proof {
                let cs = build_data.corridors->Some_0;
                assert forall|k: int|
                    old(build_data).spawn_list@.len() <= k
                        < build_data.spawn_list@.len() implies in_some_corridor(
                    cs@,
                    #[trigger] build_data.spawn_list@[k].0,
                ) by {
                    if k >= pre_len {
                        assert(cs@[c as int]@.contains(build_data.spawn_list@[k].0));
                    }
                }
            }
            c = c + 1;
        }
        Ok(())
    }
}

} // verus!
