//! The hexagon map: its tiles, the grid that holds them, and the mathematical
//! view in which the contracts of this crate are written.

use vstd::prelude::*;

verus! {

/// One cell of the hexagon map.
#[derive(Debug, Clone, Copy, PartialEq, Eq, Structural)]
pub enum HexagonTile {
    Land,
    Water,
    /// A tile that the player has picked with the mouse.
    Clicked,
}

/// The number a tile is printed as: its position among the variants.
pub open spec fn tile_code(t: HexagonTile) -> u8 {
    match t {
        HexagonTile::Land => 0,
        HexagonTile::Water => 1,
        HexagonTile::Clicked => 2,
    }
}

impl HexagonTile {
    /// The tile's position among the variants (`Land` 0, `Water` 1, `Clicked` 2).
    pub fn code(self) -> (c: u8)
        ensures
            c == tile_code(self),
            self == HexagonTile::Land ==> c == 0,
            self == HexagonTile::Water ==> c == 1,
            self == HexagonTile::Clicked ==> c == 2,
    {
        match self {
            HexagonTile::Land => 0,
            HexagonTile::Water => 1,
            HexagonTile::Clicked => 2,
        }
    }
}

impl Default for HexagonTile {
    /// A fresh tile is water.
    fn default() -> (t: Self)
        ensures
            t == HexagonTile::Water,
    {
        HexagonTile::Water
    }
}

/// The four bytes of an RGBA colour, in the order red, green, blue, alpha.
pub open spec fn rgba_bytes(c: (u8, u8, u8, u8)) -> Seq<u8> {
    seq![c.0, c.1, c.2, c.3]
}

/// The colours the map is drawn with, each as RGBA bytes.
pub struct Palette {
    pub land: (u8, u8, u8, u8),
    pub water: (u8, u8, u8, u8),
    pub clicked: (u8, u8, u8, u8),
    /// The colour of a screen pixel that lies over no tile of the grid.
    pub outside: (u8, u8, u8, u8),
}

impl Palette {
    /// The colour of a tile in the grid texture: land is drawn in the land
    /// colour and every other tile in the water colour.
    pub open spec fn texture_color(self, t: HexagonTile) -> (u8, u8, u8, u8) {
        if t == HexagonTile::Land {
            self.land
        } else {
            self.water
        }
    }

    /// The colour of a screen pixel, given the tile under it if there is one.
    pub open spec fn screen_color(self, t: Option<HexagonTile>) -> (u8, u8, u8, u8) {
        match t {
            Some(HexagonTile::Land) => self.land,
            Some(HexagonTile::Water) => self.water,
            Some(HexagonTile::Clicked) => self.clicked,
            None => self.outside,
        }
    }
}

/// A `width` x `height` map of hexagon tiles, stored row by row: the tile in
/// column `x` of row `y` is `hexagons[y * width + x]`.
pub struct HexagonGrid {
    pub hexagons: Vec<HexagonTile>,
    pub width: usize,
    pub height: usize,
    pub seed: i32,
}

/// The mathematical value of a grid.
#[verifier::ext_equal]
pub struct GridView {
    pub tiles: Seq<HexagonTile>,
    pub width: nat,
    pub height: nat,
    pub seed: i32,
}

impl View for HexagonGrid {
    type V = GridView;

    open spec fn view(&self) -> GridView {
        GridView {
            tiles: self.hexagons@,
            width: self.width as nat,
            height: self.height as nat,
            seed: self.seed,
        }
    }
}

impl GridView {
    /// The number of cells of the map.
    pub open spec fn cell_count(self) -> nat {
        self.width * self.height
    }

    /// Every cell of the map has a tile.
    pub open spec fn well_formed(self) -> bool {
        self.cell_count() <= self.tiles.len()
    }

    pub open spec fn in_bounds(self, col: int, row: int) -> bool {
        0 <= col < self.width && 0 <= row < self.height
    }

    /// Where the tile of column `col`, row `row` is stored.
    pub open spec fn index_of(self, col: int, row: int) -> int {
        row * self.width + col
    }

    /// The tile at column `col` of row `row`, or `None` off the map or where
    /// no tile is stored for the cell.
    pub open spec fn get(self, col: int, row: int) -> Option<HexagonTile> {
        if self.in_bounds(col, row) && self.index_of(col, row) < self.tiles.len() {
            Some(self.tiles[self.index_of(col, row)])
        } else {
            None
        }
    }

    /// The grid after a click on column `col`, row `row`: the tile stored at
    /// `row * width + col` becomes `Clicked`, if there is a tile there.
    pub open spec fn click(self, col: int, row: int) -> GridView {
        let i = self.index_of(col, row);
        if 0 <= i < self.tiles.len() {
            GridView {
                tiles: self.tiles.update(i, HexagonTile::Clicked),
                width: self.width,
                height: self.height,
                seed: self.seed,
            }
        } else {
            self
        }
    }

    /// The grid after island generation with the land mask `land`: each cell
    /// of the map becomes land where the mask says so and water elsewhere.
    pub open spec fn with_land(self, land: Seq<bool>) -> GridView {
        GridView {
            tiles: Seq::new(
                self.tiles.len(),
                |i: int|
                    if i < self.cell_count() {
                        if land[i] {
                            HexagonTile::Land
                        } else {
                            HexagonTile::Water
                        }
                    } else {
                        self.tiles[i]
                    },
            ),
            width: self.width,
            height: self.height,
            seed: self.seed,
        }
    }

    /// The RGBA texture of the map: four bytes per cell, in storage order.
    pub open spec fn texture(self, palette: Palette) -> Seq<u8> {
        texture_chunks(self.tiles.take(self.cell_count() as int), palette).flatten()
    }

    /// One printed row: the code of each tile as an ASCII digit, then a newline.
    pub open spec fn row_text(self, row: int) -> Seq<u8> {
        Seq::new(
            self.width,
            |col: int| (48 + tile_code(self.tiles[self.index_of(col, row)])) as u8,
        ).push(10u8)
    }

    /// The printed map: its rows, top to bottom.
    pub open spec fn text(self) -> Seq<u8> {
        Seq::new(self.height, |row: int| self.row_text(row)).flatten()
    }
}

/// The colour of each tile of `tiles` in the grid texture, as RGBA bytes.
pub open spec fn texture_chunks(tiles: Seq<HexagonTile>, palette: Palette) -> Seq<Seq<u8>> {
    Seq::new(tiles.len(), |i: int| rgba_bytes(palette.texture_color(tiles[i])))
}

/// Row `row` < `h` of a map `w` wide starts at `row * w`, and the next row
/// starts `w` further on, no later than `w * h`.
pub proof fn lemma_row_start(w: int, h: int, row: int)
    requires
        0 <= w,
        0 <= row < h,
    ensures
        0 <= row * w,
        row * w + w == (row + 1) * w,
        (row + 1) * w <= w * h,
{
    assert(0 <= row * w) by (nonlinear_arith)
        requires
            0 <= row,
            0 <= w,
    ;
    assert(row * w + w == (row + 1) * w) by (nonlinear_arith);
    assert((row + 1) * w <= w * h) by (nonlinear_arith)
        requires
            row + 1 <= h,
            0 <= w,
    ;
}

/// For a cell in column `col` < `w` of row `row` < `h`, the storage index
/// `row * w + col` lies in `0 .. w * h`, and the next row starts `w` further on.
pub proof fn lemma_cell_index(w: int, h: int, col: int, row: int)
    requires
        0 <= col < w,
        0 <= row < h,
    ensures
        0 <= row * w,
        0 <= row * w + col < w * h,
        row * w + w == (row + 1) * w,
        (row + 1) * w <= w * h,
{
    lemma_row_start(w, h, row);
}

impl HexagonGrid {
    /// A `w` x `h` map of water whose noise seed is `seed`, or 0 without one.
    pub fn new(w: usize, h: usize, seed: Option<i32>) -> (grid: Self)
        requires
            w * h <= usize::MAX,
        ensures
            grid@.width == w,
            grid@.height == h,
            grid@.seed == (match seed {
                Some(s) => s,
                None => 0i32,
            }),
            grid@.tiles == Seq::new((w * h) as nat, |i: int| HexagonTile::Water),
            grid@.well_formed(),
            grid@.tiles.len() == grid@.cell_count(),
    {
        let mut hexagons: Vec<HexagonTile> = Vec::new();
        hexagons.resize(w * h, HexagonTile::Water);
        assert(hexagons@ =~= Seq::new((w * h) as nat, |i: int| HexagonTile::Water));
        HexagonGrid { hexagons: hexagons, width: w, height: h, seed: seed.unwrap_or(0) }
    }

    /// The map as an RGBA image, four bytes per cell in storage order: land in
    /// the palette's land colour, every other tile in its water colour.
    pub fn get_rgba8(&self, palette: &Palette) -> (colors: Vec<u8>)
        requires
            self@.well_formed(),
            self.height * self.width * 4 <= usize::MAX,
        ensures
            colors@ == self@.texture(*palette),
            colors@.len() == 4 * self@.cell_count(),
    {
        let mut colors: Vec<u8> = Vec::with_capacity(self.height * self.width * 4);
        assert(self.width * self.height <= self.height * self.width * 4) by (nonlinear_arith);
        let count = self.width * self.height;
        for i in 0..count
            invariant
                count == self@.cell_count(),
                self@.well_formed(),
                colors@ == texture_chunks(self.hexagons@.take(i as int), *palette).flatten(),
                colors@.len() == 4 * i,
        {
            let tile = self.hexagons[i];
            let (r, g, b, a) = if tile == HexagonTile::Land {
                palette.land
            } else {
                palette.water
            };
            let ghost before = colors@;
            colors.push(r);
            colors.push(g);
            colors.push(b);
            colors.push(a);
            proof {
                let prefix = self.hexagons@.take(i as int);
                assert(self.hexagons@.take(i + 1) =~= prefix.push(tile));
                assert(texture_chunks(prefix.push(tile), *palette) =~= texture_chunks(
                    prefix,
                    *palette,
                ).push(rgba_bytes(palette.texture_color(tile))));
                texture_chunks(prefix, *palette).lemma_flatten_push(
                    rgba_bytes(palette.texture_color(tile)),
                );
                assert(colors@ =~= before + rgba_bytes(palette.texture_color(tile)));
            }
        }
        colors
    }

    /// The text that printing the map shows: for each row, top to bottom, the
    /// code of each tile as an ASCII digit, then a newline.
    pub fn print_text(&self) -> (text: Vec<u8>)
        requires
            self@.well_formed(),
        ensures
            text@ == self@.text(),
    {
        let mut text: Vec<u8> = Vec::new();
        let stored = self.hexagons.len();
        for y in 0..self.height
            invariant
                stored == self.hexagons@.len(),
                self@.well_formed(),
                text@ == Seq::new(y as nat, |row: int| self@.row_text(row)).flatten(),
        {
            let ghost before = text@;
            for x in 0..self.width
                invariant
                    stored == self.hexagons@.len(),
                    self@.well_formed(),
                    y < self.height,
                    text@ == before + Seq::new(
                        x as nat,
                        |col: int| (48 + tile_code(self@.tiles[self@.index_of(col, y as int)])) as u8,
                    ),
            {
                proof {
                    lemma_cell_index(self.width as int, self.height as int, x as int, y as int);
                }
                let tile = self.hexagons[y * self.width + x];
                let digit = 48 + tile.code();
                text.push(digit);
                assert(text@ =~= before + Seq::new(
                    (x + 1) as nat,
                    |col: int| (48 + tile_code(self@.tiles[self@.index_of(col, y as int)])) as u8,
                ));
            }
            text.push(10);
            proof {
                let rows = Seq::new(y as nat, |row: int| self@.row_text(row));
                assert(self@.row_text(y as int) =~= Seq::new(
                    self.width as nat,
                    |col: int| (48 + tile_code(self@.tiles[self@.index_of(col, y as int)])) as u8,
                ).push(10u8));
                assert(Seq::new((y + 1) as nat, |row: int| self@.row_text(row)) =~= rows.push(
                    self@.row_text(y as int),
                ));
                rows.lemma_flatten_push(self@.row_text(y as int));
                assert(text@ =~= rows.flatten() + self@.row_text(y as int));
            }
        }
        assert(Seq::new(self.height as nat, |row: int| self@.row_text(row)) =~= Seq::new(
            self@.height,
            |row: int| self@.row_text(row),
        ));
        text
    }

    /// The tile at column `col` of row `row`, or `None` when that cell is off
    /// the map or has no tile stored for it.
    pub fn get(&self, col: i64, row: i64) -> (tile: Option<HexagonTile>)
        ensures
            tile == self@.get(col as int, row as int),
            col < 0 || row < 0 || col >= self.width || row >= self.height ==> tile is None,
            0 <= col < self.width && 0 <= row < self.height && row * self.width + col
                < self.hexagons@.len() ==> tile == Some(self.hexagons@[row * self.width + col]),
    {
        if 0 <= col && 0 <= row && (col as i128) < (self.width as i128) && (row as i128) < (
        self.height as i128) {
            let c = col as usize;
            let r = row as usize;
            let stored = self.hexagons.len();
            match r.checked_mul(self.width) {
                Some(row_start) => match row_start.checked_add(c) {
                    Some(index) => {
                        if index < stored {
                            Some(self.hexagons[index])
                        } else {
                            None
                        }
                    },
                    None => None,
                },
                None => {
                    assert(r * self.width + c >= r * self.width) by (nonlinear_arith)
                        requires
                            0 <= c,
                    ;
                    None
                },
            }
        } else {
            None
        }
    }

    /// Marks as clicked the tile stored at `row * width + col`, if there is one.
    pub fn mark_clicked(&mut self, col: usize, row: usize)
        requires
            row * old(self).width + col <= usize::MAX,
        ensures
            final(self)@ == old(self)@.click(col as int, row as int),
    {
        let index = row * self.width + col;
        if index < self.hexagons.len() {
            self.hexagons.set(index, HexagonTile::Clicked);
        }
    }
}

impl Default for HexagonGrid {
    /// The empty map: no tiles, no width, no height, seed 0.
    fn default() -> (grid: Self)
        ensures
            grid@.tiles == Seq::<HexagonTile>::empty(),
            grid@.width == 0,
            grid@.height == 0,
            grid@.seed == 0,
    {
        HexagonGrid { hexagons: Vec::new(), width: 0, height: 0, seed: 0 }
    }
}

} // verus!
