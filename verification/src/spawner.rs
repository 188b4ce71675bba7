//! The spawn-placement collaborator: given a region of cell indices, append
//! weighted entity placements along it. Placement requests always reference
//! cells of the given region.

use vstd::prelude::*;
use crate::rng::roll_dice;

verus! {

/// Append `1d6 + depth - 4` placement requests (bounded below by zero and
/// above by the region size), each on a cell of `area`, with entity kinds
/// drawn from a small weighted table. Every appended index is an element of
/// `area`; from depth four up, a nonempty (indexable) region always receives
/// at least one placement, whatever the dice say.
#[verifier::loop_isolation(false)]
pub fn spawn_region(
    rng: &mut rltk::RandomNumberGenerator,
    area: &Vec<usize>,
    map_depth: i32,
    spawn_list: &mut Vec<(usize, String)>,
)
    ensures
        final(spawn_list)@.len() >= old(spawn_list)@.len(),
        forall|k: int|
            0 <= k < old(spawn_list)@.len() ==> final(spawn_list)@[k] == old(spawn_list)@[k],
        forall|k: int|
            old(spawn_list)@.len() <= k < final(spawn_list)@.len() ==> area@.contains(
                #[trigger] final(spawn_list)@[k].0,
            ),
        final(spawn_list)@.len() - old(spawn_list)@.len() <= area@.len(),
        final(spawn_list)@.len() - old(spawn_list)@.len() <= (if map_depth + 2 >= 0 {
            map_depth + 2
        } else {
            0
        }),
        (map_depth >= 4 && 0 < area@.len() < i32::MAX) ==> final(spawn_list)@.len() > old(
            spawn_list,
        )@.len(),
{
    if area.len() == 0 {
        return ;
    }
    if area.len() >= (i32::MAX as usize) {
        return ;
    }
    let roll = roll_dice(rng, 1, 6);
    let mut want: i64 = roll as i64 + map_depth as i64 - 4;
    let ghost want0 = want as int;
    if want <= 0 {
        return ;
    }

    let mut candidates: Vec<usize> = Vec::new();
    let mut i: usize = 0;
    while i < area.len()
        invariant
            i <= area@.len(),
            candidates@.len() == i,
            forall|k: int| 0 <= k < i ==> candidates@[k] == area@[k],
        decreases area@.len() - i,
    {
        candidates.push(area[i]);
        i = i + 1;
    }

    while want > 0 && candidates.len() > 0
        invariant
            0 <= want <= want0,
            want0 <= map_depth + 2,
            spawn_list@.len() - old(spawn_list)@.len() == want0 - want,
            spawn_list@.len() - old(spawn_list)@.len() == area@.len() - candidates@.len(),
            candidates@.len() <= area@.len(),
            forall|k: int| 0 <= k < candidates@.len() ==> area@.contains(#[trigger] candidates@[k]),
            spawn_list@.len() >= old(spawn_list)@.len(),
            forall|k: int|
                0 <= k < old(spawn_list)@.len() ==> spawn_list@[k] == old(spawn_list)@[k],
            forall|k: int|
                old(spawn_list)@.len() <= k < spawn_list@.len() ==> area@.contains(
                    #[trigger] spawn_list@[k].0,
                ),
        decreases want,
    {
        let len = candidates.len();
        let pick = roll_dice(rng, 1, len as i32);
        let j = (pick - 1) as usize;
        let cell = candidates[j];
        let ghost pre = candidates@;
        candidates.remove(j);
        proof {
            assert forall|k: int|
                0 <= k < candidates@.len() implies area@.contains(#[trigger] candidates@[k]) by {
                if k < j {
                    assert(candidates@[k] == pre[k]);
                } else {
                    assert(candidates@[k] == pre[k + 1]);
                }
            }
        }
        let kind = roll_dice(rng, 1, 4);
        let name: String = if kind == 1 {
            "Goblin".to_string()
        } else if kind == 2 {
            "Orc".to_string()
        } else if kind == 3 {
            "Health Potion".to_string()
        } else {
            "Rations".to_string()
        };
        spawn_list.push((cell, name));
        want = want - 1;
    }
}

} // verus!
