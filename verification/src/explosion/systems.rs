//! The rule that ends explosions.

use vstd::prelude::*;

use crate::explosion::data::Explosion;
use crate::store::{is_listing, list};
use crate::units::MICROS_PER_SECOND;

verus! {

/// Whether an explosion that started at `start_time` is over at `elapsed`:
/// it lasts one second.
pub open spec fn burnt_out(start_time: u64, elapsed: u64) -> bool {
    start_time + MICROS_PER_SECOND <= elapsed
}

/// Lists the explosions that are over `elapsed` microseconds into the play.
pub fn explosion_system(explosions: &Vec<Explosion>, elapsed: u64) -> (over: Vec<usize>)
    ensures
        is_listing(over@, explosions.len() as int),
        forall|i: int|
            0 <= i < explosions.len() ==> (over@.contains(i as usize) <==> burnt_out(
                (#[trigger] explosions[i]).start_time,
                elapsed,
            )),
{
    let mut over: Vec<usize> = Vec::new();
    let mut i: usize = 0;
    while i < explosions.len()
        invariant
            i <= explosions.len(),
            is_listing(over@, i as int),
            forall|k: int|
                0 <= k < i ==> (over@.contains(k as usize) <==> burnt_out(
                    (#[trigger] explosions[k]).start_time,
                    elapsed,
                )),
        decreases explosions.len() - i,
    {
        if explosions[i].start_time as u128 + MICROS_PER_SECOND as u128 <= elapsed as u128 {
            list(&mut over, i);
        }
        i += 1;
    }
    over
}

} // verus!
