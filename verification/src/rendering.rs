//! Drawing the map on the CPU, pixel by pixel.

use vstd::prelude::*;
use crate::hex::{rgba_bytes, GridView, HexagonGrid, HexagonTile, Palette};

verus! {

/// The colour of each screen pixel, as RGBA bytes, given the hexagon cell
/// (column, row) under each pixel.
pub open spec fn screen_chunks(grid: GridView, hex_coords: Seq<(i64, i64)>, palette: Palette) -> Seq<
    Seq<u8>,
> {
    Seq::new(
        hex_coords.len(),
        |k: int|
            rgba_bytes(
                palette.screen_color(grid.get(hex_coords[k].0 as int, hex_coords[k].1 as int)),
            ),
    )
}

/// The screen image: the colours of all pixels, one after the other.
pub open spec fn screen_image(grid: GridView, hex_coords: Seq<(i64, i64)>, palette: Palette) -> Seq<
    u8,
> {
    screen_chunks(grid, hex_coords, palette).flatten()
}

/// Renders the screen: for each pixel, in the order of `hex_coords`, the RGBA
/// colour of the tile in the hexagon cell (column, row) under it: land, water or
/// clicked, or the outside colour where that cell is off the map.
///
/// Which cell lies under a pixel depends on the camera position and on the
/// hexagon geometry, both in floating point; `hex_coords` carries the cell of
/// each pixel, row by row.
pub fn cpu_render_map(grid: &HexagonGrid, hex_coords: &Vec<(i64, i64)>, palette: &Palette) -> (img:
    Vec<u8>)
    requires
        grid.width * grid.height <= usize::MAX,
    ensures
        img@ == screen_image(grid@, hex_coords@, *palette),
        img@.len() == 4 * hex_coords@.len(),
{
    let mut img: Vec<u8> = Vec::with_capacity(grid.width * grid.height);
    for k in 0..hex_coords.len()
        invariant
            img@ == screen_chunks(grid@, hex_coords@.take(k as int), *palette).flatten(),
            img@.len() == 4 * k,
    {
        let (col, row) = hex_coords[k];
        let tile_opt = grid.get(col, row);
        let (r, g, b, a) = match tile_opt {
            Some(HexagonTile::Land) => palette.land,
            Some(HexagonTile::Water) => palette.water,
            Some(HexagonTile::Clicked) => palette.clicked,
            None => palette.outside,
        };
        let ghost before = img@;
        img.push(r);
        img.push(g);
        img.push(b);
        img.push(a);
        proof {
            let prefix = hex_coords@.take(k as int);
            let color = rgba_bytes(palette.screen_color(grid@.get(col as int, row as int)));
            assert(hex_coords@.take(k + 1) =~= prefix.push((col, row)));
            assert(screen_chunks(grid@, prefix.push((col, row)), *palette) =~= screen_chunks(
                grid@,
                prefix,
                *palette,
            ).push(color));
            screen_chunks(grid@, prefix, *palette).lemma_flatten_push(color);
            assert(img@ =~= before + color);
        }
    }
    assert(hex_coords@.take(hex_coords@.len() as int) =~= hex_coords@);
    img
}

} // verus!
