//! A cellular automaton on a bounded grid, computed sector by sector.

pub mod world;

use vstd::prelude::*;
use world::{Sector, World};

verus! {

/// Some sector of `sectors` covers the cell at (`x`, `y`).
pub open spec fn covered(sectors: Seq<Sector>, x: int, y: int) -> bool {
    exists|k: int| 0 <= k < sectors.len() && (#[trigger] sectors[k]).covers(x, y)
}

/// The next generation of `world`, computed one sector at a time and put
/// together. A cell that some sector covers gets its next state, however the
/// sectors are cut and in whatever order they come, even where they overlap;
/// a cell that none covers is dead.
pub fn next_generation_by_sectors(world: &World, sectors: &Vec<Sector>) -> (next: World)
    requires
        world.wf(),
        forall|k: int| 0 <= k < sectors@.len() ==> (#[trigger] sectors@[k]).fits(world.width, world.height),
    ensures
        next.wf(),
        next.width == world.width,
        next.height == world.height,
        forall|x: int, y: int|
            0 <= x < world.width && 0 <= y < world.height ==> #[trigger] next.cell(x, y) == (
            covered(sectors@, x, y) && world.next_cell(x, y)),
{
    let mut next_world = World::new(world.width, world.height);
    let mut index: usize = 0;
    while index < sectors.len()
        invariant
            index <= sectors@.len(),
            world.wf(),
            next_world.wf(),
            next_world.width == world.width,
            next_world.height == world.height,
            forall|k: int| 0 <= k < sectors@.len() ==> (#[trigger] sectors@[k]).fits(world.width, world.height),
            forall|x: int, y: int|
                0 <= x < world.width && 0 <= y < world.height ==> #[trigger] next_world.cell(x, y)
                    == (covered(sectors@.take(index as int), x, y) && world.next_cell(x, y)),
        decreases sectors@.len() - index,
    {
        let sector = &sectors[index];
        let sector_world = world.next_generation(sector);
        let ghost before = next_world;
        next_world.merge(sector, &sector_world);
        proof {
            let done = sectors@.take(index as int);
            let more = sectors@.take(index + 1);
            assert forall|x: int, y: int|
                0 <= x < world.width && 0 <= y < world.height implies #[trigger] next_world.cell(
                x,
                y,
            ) == (covered(more, x, y) && world.next_cell(x, y)) by {
                if sector.covers(x, y) {
                    assert(more[index as int].covers(x, y));
                    assert(sector_world.cell(x - sector.x, y - sector.y) == world.next_cell(
                        sector.x + (x - sector.x),
                        sector.y + (y - sector.y),
                    ));
                } else {
                    assert(next_world.cell(x, y) == before.cell(x, y));
                    if covered(done, x, y) {
                        let k = choose|k: int| 0 <= k < done.len() && (#[trigger] done[k]).covers(x, y);
                        assert(more[k].covers(x, y));
                    }
                    if covered(more, x, y) {
                        let k = choose|k: int| 0 <= k < more.len() && (#[trigger] more[k]).covers(x, y);
                        assert(k < index);
                        assert(done[k].covers(x, y));
                    }
                }
            }
        }
        index += 1;
    }
    assert(sectors@.take(sectors@.len() as int) =~= sectors@);
    next_world
}

} // verus!
