//! Laying an island into the map.

use vstd::prelude::*;
use crate::hex::{lemma_row_start, HexagonGrid, HexagonTile};

verus! {

/// Makes each cell of the map land where `land` holds for its storage index
/// (`y * width + x`) and water elsewhere; tiles stored past the map are left as
/// they are.
///
/// Whether a cell is land is decided from the grid's noise, the distance of the
/// cell from the centre of the map and two tuning factors, all in floating point;
/// `land` carries those decisions, one per cell in storage order.
pub fn generate_island(grid: &mut HexagonGrid, land: &Vec<bool>)
    requires
        old(grid)@.well_formed(),
        old(grid)@.cell_count() <= land@.len(),
    ensures
        final(grid)@ == old(grid)@.with_land(land@),
{
    let ghost start = grid@;
    let stored = grid.hexagons.len();
    let width = grid.width;
    let height = grid.height;
    assert(0 * width == 0) by (nonlinear_arith);
    assert(0 <= width * height) by (nonlinear_arith);
    for y in 0..height
        invariant
            grid@.width == start.width == width,
            grid@.height == start.height == height,
            grid@.seed == start.seed,
            start.well_formed(),
            start.cell_count() <= land@.len(),
            grid@.tiles.len() == start.tiles.len() == stored,
            0 <= y * width,
            y * width <= width * height,
            forall|i: int|
                0 <= i < y * width ==> #[trigger] grid@.tiles[i] == start.with_land(land@).tiles[i],
            forall|i: int| y * width <= i < stored ==> #[trigger] grid@.tiles[i] == start.tiles[i],
    {
        proof {
            lemma_row_start(width as int, height as int, y as int);
        }
        for x in 0..width
            invariant
                grid@.width == start.width == width,
                grid@.height == start.height == height,
                grid@.seed == start.seed,
                start.well_formed(),
                start.cell_count() <= land@.len(),
                grid@.tiles.len() == start.tiles.len() == stored,
                y < height,
                0 <= y * width,
                (y + 1) * width <= width * height,
                y * width + width == (y + 1) * width,
                forall|i: int|
                    0 <= i < y * width + x ==> #[trigger] grid@.tiles[i] == start.with_land(
                        land@,
                    ).tiles[i],
                forall|i: int|
                    y * width + x <= i < stored ==> #[trigger] grid@.tiles[i] == start.tiles[i],
        {
            let index = y * width + x;
            let tile = if land[index] {
                HexagonTile::Land
            } else {
                HexagonTile::Water
            };
            grid.hexagons.set(index, tile);
        }
    }
    assert(height * width == width * height) by (nonlinear_arith);
    assert(grid@.tiles =~= start.with_land(land@).tiles);
}

} // verus!
