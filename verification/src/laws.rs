//! What holds of the map across its operations.

use vstd::prelude::*;
use crate::hex::{
    lemma_cell_index, rgba_bytes, texture_chunks, tile_code, GridView, HexagonTile, Palette,
};
use crate::rendering::{screen_chunks, screen_image};

verus! {

/// Flattening blocks that all have length `k` gives `k` elements per block, and
/// block `i` is found at `i * k .. i * k + k`.
proof fn lemma_flatten_blocks<A>(s: Seq<Seq<A>>, k: int)
    requires
        0 <= k,
        forall|j: int| 0 <= j < s.len() ==> #[trigger] s[j].len() == k,
    ensures
        s.flatten().len() == s.len() * k,
        forall|i: int|
            0 <= i < s.len() ==> #[trigger] s.flatten().subrange(i * k, i * k + k) == s[i],
    decreases s.len(),
{
    if s.len() == 0 {
        assert(s.flatten() =~= Seq::<A>::empty());
    } else {
        let p = s.drop_last();
        lemma_flatten_blocks(p, k);
        assert(s =~= p.push(s.last()));
        p.lemma_flatten_push(s.last());
        assert(p.len() * k + k == s.len() * k) by (nonlinear_arith)
            requires
                p.len() + 1 == s.len(),
        ;
        assert forall|i: int| 0 <= i < s.len() implies #[trigger] s.flatten().subrange(
            i * k,
            i * k + k,
        ) == s[i] by {
            assert(0 <= i * k) by (nonlinear_arith)
                requires
                    0 <= i,
                    0 <= k,
            ;
            if i < p.len() {
                assert(i * k + k <= p.len() * k) by (nonlinear_arith)
                    requires
                        i + 1 <= p.len(),
                        0 <= k,
                ;
                assert(s.flatten().subrange(i * k, i * k + k) =~= p.flatten().subrange(
                    i * k,
                    i * k + k,
                ));
                assert(p[i] == s[i]);
            } else {
                assert(i * k == p.len() * k);
                assert(s.flatten().subrange(i * k, i * k + k) =~= s.last());
            }
        }
    }
}

/// Two cells of the map that differ are stored at different indices.
proof fn lemma_index_injective(v: GridView, col: int, row: int, c: int, r: int)
    requires
        v.in_bounds(col, row),
        v.in_bounds(c, r),
        (c, r) != (col, row),
    ensures
        v.index_of(c, r) != v.index_of(col, row),
{
    let w = v.width as int;
    if r == row {
    } else if r < row {
        assert(r * w + w <= row * w) by (nonlinear_arith)
            requires
                r + 1 <= row,
                0 <= w,
        ;
    } else {
        assert(row * w + w <= r * w) by (nonlinear_arith)
            requires
                row + 1 <= r,
                0 <= w,
        ;
    }
}

/// After a click on a cell of the map, that cell reads as `Clicked`, every
/// other cell reads as before, and every cell still has a tile.
pub proof fn lemma_get_after_click(v: GridView, col: int, row: int, c: int, r: int)
    requires
        v.well_formed(),
        v.in_bounds(col, row),
    ensures
        v.click(col, row).well_formed(),
        v.click(col, row).get(col, row) == Some(HexagonTile::Clicked),
        (c, r) != (col, row) ==> v.click(col, row).get(c, r) == v.get(c, r),
{
    lemma_cell_index(v.width as int, v.height as int, col, row);
    if v.in_bounds(c, r) && (c, r) != (col, row) {
        lemma_cell_index(v.width as int, v.height as int, c, r);
        lemma_index_injective(v, col, row, c, r);
    }
}

/// A cell off the map holds no tile, whatever the grid: a column or row below
/// zero, or at or past the width or height, reads as `None`.
pub proof fn lemma_get_off_map(v: GridView, col: int, row: int)
    requires
        col < 0 || row < 0 || col >= v.width || row >= v.height,
    ensures
        v.get(col, row) is None,
{
}

/// On a map with a tile for every cell, every cell on the map holds the tile
/// stored at `row * width + col`.
pub proof fn lemma_get_on_map(v: GridView, col: int, row: int)
    requires
        v.well_formed(),
        0 <= col < v.width,
        0 <= row < v.height,
    ensures
        v.get(col, row) == Some(v.tiles[row * v.width + col]),
{
    lemma_cell_index(v.width as int, v.height as int, col, row);
}

/// A second click on the same place changes nothing more.
pub proof fn lemma_click_idempotent(v: GridView, col: int, row: int)
    ensures
        v.click(col, row).click(col, row) == v.click(col, row),
{
    let i = v.index_of(col, row);
    if 0 <= i < v.tiles.len() {
        assert(v.click(col, row).click(col, row).tiles =~= v.click(col, row).tiles);
    }
}

/// After island generation every cell of the map is land where the mask says
/// so and water elsewhere, so no click survives it, and every cell still has a tile.
pub proof fn lemma_island_cells(v: GridView, land: Seq<bool>, col: int, row: int)
    requires
        v.well_formed(),
        v.in_bounds(col, row),
    ensures
        v.with_land(land).well_formed(),
        v.with_land(land).get(col, row) == Some(
            if land[v.index_of(col, row)] {
                HexagonTile::Land
            } else {
                HexagonTile::Water
            },
        ),
{
    lemma_cell_index(v.width as int, v.height as int, col, row);
}

/// Generating an island again replaces the previous one: the map then depends
/// only on the last mask.
pub proof fn lemma_island_regenerate(v: GridView, first: Seq<bool>, second: Seq<bool>)
    ensures
        v.with_land(first).with_land(second) == v.with_land(second),
{
    assert(v.with_land(first).with_land(second).tiles =~= v.with_land(second).tiles);
}

/// The island does not depend on what the map held before: two maps of the
/// same size given the same mask hold the same tiles in every cell afterwards.
pub proof fn lemma_island_ignores_previous_tiles(v1: GridView, v2: GridView, land: Seq<bool>)
    requires
        v1.well_formed(),
        v2.well_formed(),
        v1.width == v2.width,
        v1.height == v2.height,
    ensures
        v1.with_land(land).tiles.take(v1.cell_count() as int) == v2.with_land(land).tiles.take(
            v2.cell_count() as int,
        ),
{
    assert(v1.with_land(land).tiles.take(v1.cell_count() as int) =~= v2.with_land(land).tiles.take(
        v2.cell_count() as int,
    ));
}

/// A map that holds exactly one tile per cell, as a new map does, still does
/// after island generation.
pub proof fn lemma_island_keeps_exact_size(v: GridView, land: Seq<bool>)
    requires
        v.tiles.len() == v.cell_count(),
    ensures
        v.with_land(land).tiles.len() == v.with_land(land).cell_count(),
        v.with_land(land).well_formed(),
{
}

/// The texture has four bytes per cell of the map, and the bytes of the cell
/// stored at `i` are the texture colour of its tile.
pub proof fn lemma_texture_layout(v: GridView, palette: Palette, i: int)
    requires
        v.well_formed(),
        0 <= i < v.cell_count(),
    ensures
        v.texture(palette).len() == 4 * v.cell_count(),
        v.texture(palette).subrange(4 * i, 4 * i + 4) == rgba_bytes(
            palette.texture_color(v.tiles[i]),
        ),
{
    let chunks = texture_chunks(v.tiles.take(v.cell_count() as int), palette);
    lemma_flatten_blocks(chunks, 4);
    assert(chunks.flatten().subrange(i * 4, i * 4 + 4) == chunks[i]);
}

/// The screen image has four bytes per pixel, and the bytes of pixel `k` are
/// the screen colour of what lies at its hexagon cell.
pub proof fn lemma_screen_layout(v: GridView, hex_coords: Seq<(i64, i64)>, palette: Palette, k: int)
    requires
        0 <= k < hex_coords.len(),
    ensures
        screen_image(v, hex_coords, palette).len() == 4 * hex_coords.len(),
        screen_image(v, hex_coords, palette).subrange(4 * k, 4 * k + 4) == rgba_bytes(
            palette.screen_color(v.get(hex_coords[k].0 as int, hex_coords[k].1 as int)),
        ),
{
    let chunks = screen_chunks(v, hex_coords, palette);
    lemma_flatten_blocks(chunks, 4);
    assert(chunks.flatten().subrange(k * 4, k * 4 + 4) == chunks[k]);
}

/// A pixel whose cell is off the map is drawn in the outside colour.
pub proof fn lemma_screen_off_map(v: GridView, hex_coords: Seq<(i64, i64)>, palette: Palette, k: int)
    requires
        0 <= k < hex_coords.len(),
        hex_coords[k].0 < 0 || hex_coords[k].1 < 0 || hex_coords[k].0 >= v.width
            || hex_coords[k].1 >= v.height,
    ensures
        screen_image(v, hex_coords, palette).subrange(4 * k, 4 * k + 4) == rgba_bytes(
            palette.outside,
        ),
{
    lemma_screen_layout(v, hex_coords, palette, k);
    lemma_get_off_map(v, hex_coords[k].0 as int, hex_coords[k].1 as int);
}

/// Each pixel is drawn in the colour of what lies at its cell: land in the land
/// colour, water in the water colour, a clicked tile in the clicked colour, and
/// a cell with no tile in the outside colour.
pub proof fn lemma_screen_colours(v: GridView, hex_coords: Seq<(i64, i64)>, palette: Palette, k: int)
    requires
        0 <= k < hex_coords.len(),
    ensures
        ({
            let pixel = screen_image(v, hex_coords, palette).subrange(4 * k, 4 * k + 4);
            let cell = v.get(hex_coords[k].0 as int, hex_coords[k].1 as int);
            &&& cell == Some(HexagonTile::Land) ==> pixel == seq![
                palette.land.0,
                palette.land.1,
                palette.land.2,
                palette.land.3,
            ]
            &&& cell == Some(HexagonTile::Water) ==> pixel == seq![
                palette.water.0,
                palette.water.1,
                palette.water.2,
                palette.water.3,
            ]
            &&& cell == Some(HexagonTile::Clicked) ==> pixel == seq![
                palette.clicked.0,
                palette.clicked.1,
                palette.clicked.2,
                palette.clicked.3,
            ]
            &&& cell is None ==> pixel == seq![
                palette.outside.0,
                palette.outside.1,
                palette.outside.2,
                palette.outside.3,
            ]
        }),
{
    lemma_screen_layout(v, hex_coords, palette, k);
}

/// Pixels are drawn in the order of their cells: the image of the first `n`
/// cells is the first `4 * n` bytes of the image of all of them. With the cells
/// listed row by row from the top, each row left to right, rendering a taller
/// screen of the same width only adds rows at the bottom.
pub proof fn lemma_screen_prefix(v: GridView, hex_coords: Seq<(i64, i64)>, palette: Palette, n: int)
    requires
        0 <= n <= hex_coords.len(),
    ensures
        screen_image(v, hex_coords.take(n), palette) == screen_image(v, hex_coords, palette).subrange(
            0,
            4 * n,
        ),
{
    let all = screen_chunks(v, hex_coords, palette);
    let front = screen_chunks(v, hex_coords.take(n), palette);
    assert(front =~= all.take(n));
    assert(all =~= all.take(n) + all.skip(n));
    vstd::seq_lib::lemma_flatten_concat(all.take(n), all.skip(n));
    lemma_flatten_blocks(front, 4);
    assert(screen_image(v, hex_coords, palette).subrange(0, 4 * n) =~= front.flatten());
}

/// Drawing on the CPU and drawing through the texture agree: a screen pixel
/// over a land or water cell of the map has the colour that cell has in the texture.
pub proof fn lemma_screen_matches_texture(
    v: GridView,
    hex_coords: Seq<(i64, i64)>,
    palette: Palette,
    k: int,
)
    requires
        v.well_formed(),
        0 <= k < hex_coords.len(),
        v.in_bounds(hex_coords[k].0 as int, hex_coords[k].1 as int),
        v.get(hex_coords[k].0 as int, hex_coords[k].1 as int) != Some(HexagonTile::Clicked),
    ensures
        ({
            let i = v.index_of(hex_coords[k].0 as int, hex_coords[k].1 as int);
            screen_image(v, hex_coords, palette).subrange(4 * k, 4 * k + 4) == v.texture(
                palette,
            ).subrange(4 * i, 4 * i + 4)
        }),
{
    let col = hex_coords[k].0 as int;
    let row = hex_coords[k].1 as int;
    lemma_cell_index(v.width as int, v.height as int, col, row);
    lemma_screen_layout(v, hex_coords, palette, k);
    lemma_texture_layout(v, palette, v.index_of(col, row));
}

/// In the texture a land tile has the land colour, and every other tile, a
/// clicked one included, the water colour.
pub proof fn lemma_texture_colours(v: GridView, palette: Palette, i: int)
    requires
        v.well_formed(),
        0 <= i < v.cell_count(),
    ensures
        ({
            let pixel = v.texture(palette).subrange(4 * i, 4 * i + 4);
            &&& v.tiles[i] == HexagonTile::Land ==> pixel == seq![
                palette.land.0,
                palette.land.1,
                palette.land.2,
                palette.land.3,
            ]
            &&& v.tiles[i] != HexagonTile::Land ==> pixel == seq![
                palette.water.0,
                palette.water.1,
                palette.water.2,
                palette.water.3,
            ]
        }),
{
    lemma_texture_layout(v, palette, i);
}

/// Tiles print as the digits of their order among the variants: land as `0`,
/// water as `1`, a clicked tile as `2`.
pub proof fn lemma_tile_digits(v: GridView, col: int, row: int)
    requires
        0 <= row < v.height,
        0 <= col < v.width,
    ensures
        ({
            let b = v.text()[row * (v.width + 1) + col];
            let t = v.tiles[row * v.width + col];
            &&& t == HexagonTile::Land ==> b == 48
            &&& t == HexagonTile::Water ==> b == 49
            &&& t == HexagonTile::Clicked ==> b == 50
        }),
{
    lemma_text_layout(v, col, row);
}

/// The printed map has `width + 1` bytes per row: in row `row`, the digit of
/// each tile's code, then a newline.
pub proof fn lemma_text_layout(v: GridView, col: int, row: int)
    requires
        0 <= row < v.height,
    ensures
        v.text().len() == v.height * (v.width + 1),
        v.text().subrange(row * (v.width + 1), row * (v.width + 1) + v.width + 1) == v.row_text(
            row,
        ),
        0 <= col < v.width ==> v.text()[row * (v.width + 1) + col] == (48 + tile_code(
            v.tiles[v.index_of(col, row)],
        )) as u8,
        v.text()[row * (v.width + 1) + v.width] == 10,
{
    let k: int = (v.width + 1) as int;
    let rows = Seq::new(v.height, |r: int| v.row_text(r));
    lemma_flatten_blocks(rows, k);
    assert(rows.flatten().subrange(row * k, row * k + k) == rows[row]);
    assert(0 <= row * k) by (nonlinear_arith)
        requires
            0 <= row,
            0 <= k,
    ;
    assert(row * k + k <= v.height * k) by (nonlinear_arith)
        requires
            row + 1 <= v.height,
            0 <= k,
    ;
    let block = v.text().subrange(row * k, row * k + k);
    if 0 <= col < v.width {
        assert(block[col] == v.text()[row * k + col]);
    }
    assert(block[v.width as int] == v.text()[row * k + v.width]);
}

} // verus!
