use vstd::prelude::*;
use crate::room::Room;

verus! {

/// Side length of a tile, in world units.
pub const TILE_SIZE: u32 = 8;

/// World x coordinate of the grid's first column is `-ORIGIN_X`.
pub const ORIGIN_X: i128 = 400;

/// World y coordinate of the grid's first row is `-ORIGIN_Y`.
pub const ORIGIN_Y: i128 = 300;

/// A colour whose channels are given in thousandths of full intensity.
#[derive(Clone, Copy, Debug, PartialEq, Eq, Structural)]
pub struct Rgb {
    pub red: u16,
    pub green: u16,
    pub blue: u16,
}

/// One square tile standing for the cell at (`column`, `row`).
#[derive(Clone, Copy, Debug, PartialEq, Eq, Structural)]
pub struct Tile {
    pub column: usize,
    pub row: usize,
    pub x: i128,
    pub y: i128,
    pub color: Rgb,
    pub size: u32,
}

/// The colour of a cell symbol: red walls, light grey floor, teal, dark navy
/// and black for the other known symbols, white for any other symbol.
pub open spec fn symbol_color(symbol: char) -> Rgb {
    if symbol == '#' {
        Rgb { red: 1000, green: 0, blue: 0 }
    } else if symbol == '.' {
        Rgb { red: 800, green: 800, blue: 800 }
    } else if symbol == '&' {
        Rgb { red: 100, green: 700, blue: 500 }
    } else if symbol == '@' {
        Rgb { red: 100, green: 200, blue: 300 }
    } else if symbol == '*' {
        Rgb { red: 0, green: 0, blue: 0 }
    } else {
        Rgb { red: 1000, green: 1000, blue: 1000 }
    }
}

/// The tile for the cell at column `x` and row `y` holding `symbol`.
pub open spec fn tile_at(x: int, y: int, symbol: char) -> Tile {
    Tile {
        column: x as usize,
        row: y as usize,
        x: (x * TILE_SIZE - ORIGIN_X) as i128,
        y: (y * TILE_SIZE - ORIGIN_Y) as i128,
        color: symbol_color(symbol),
        size: TILE_SIZE,
    }
}

/// The tiles of row `y`, left to right.
pub open spec fn row_tiles(y: int, row: Seq<char>) -> Seq<Tile> {
    Seq::new(row.len(), |x: int| tile_at(x, y, row[x]))
}

/// The tiles of a grid, row by row, each row left to right: one per cell.
pub open spec fn grid_tiles(grid: Seq<Seq<char>>) -> Seq<Tile>
    decreases grid.len(),
{
    if grid.len() == 0 {
        Seq::empty()
    } else {
        grid_tiles(grid.drop_last()) + row_tiles(grid.len() - 1, grid.last())
    }
}

/// The colour of a cell symbol.
pub fn color_of(symbol: char) -> (r: Rgb)
    ensures
        r == symbol_color(symbol),
{
    match symbol {
        '#' => Rgb { red: 1000, green: 0, blue: 0 },
        '.' => Rgb { red: 800, green: 800, blue: 800 },
        '&' => Rgb { red: 100, green: 700, blue: 500 },
        '@' => Rgb { red: 100, green: 200, blue: 300 },
        '*' => Rgb { red: 0, green: 0, blue: 0 },
        _ => Rgb { red: 1000, green: 1000, blue: 1000 },
    }
}

/// Emits one tile per cell of the room, row by row. Rows of any length are
/// drawn as they are.
pub fn render(room: &Room) -> (r: Vec<Tile>)
    ensures
        r@ == grid_tiles(room@),
{
    let mut out: Vec<Tile> = Vec::new();
    let mut y: usize = 0;
    while y < room.terrain.len()
        invariant
            y <= room@.len(),
            out@ == grid_tiles(room@.take(y as int)),
        decreases room@.len() - y,
    {
        let row = &room.terrain[y];
        let ghost start = out@;
        let mut x: usize = 0;
        while x < row.len()
            invariant
                y < room@.len(),
                row@ == room@[y as int],
                x <= row@.len(),
                out@ == start + row_tiles(y as int, row@).take(x as int),
            decreases row@.len() - x,
        {
            let symbol = row[x];
            let tile = Tile {
                column: x,
                row: y,
                x: x as i128 * TILE_SIZE as i128 - ORIGIN_X,
                y: y as i128 * TILE_SIZE as i128 - ORIGIN_Y,
                color: color_of(symbol),
                size: TILE_SIZE,
            };
            out.push(tile);
            assert(row_tiles(y as int, row@).take(x + 1) =~= row_tiles(y as int, row@).take(
                x as int,
            ).push(tile));
            x = x + 1;
        }
        assert(row_tiles(y as int, row@).take(x as int) =~= row_tiles(y as int, row@));
        assert(room@.take(y + 1).drop_last() =~= room@.take(y as int));
        y = y + 1;
    }
    assert(room@.take(y as int) =~= room@);
    out
}

} // verus!
