//! The ray caster's world: a grid of wall tiles, and how points of the screen
//! fall onto it.
//!
//! Rays, the camera and distances are floating point and stay with the caller,
//! which rounds (or floors) a point to whole cells before asking about it.
use vstd::prelude::*;

use crate::arith::trunc_div;
use crate::geometry::{bresenham_line, bresenham_points};
use crate::keys::Key;

verus! {

pub const SCREEN_W: i32 = 80;

pub const SCREEN_H: i32 = 50;

/// Cells per tile side.
pub const TILE_SIZE: i32 = 5;

pub const TILES_W: i32 = 16;

pub const TILES_H: i32 = 10;

pub const TILES_CUBE: i32 = 160;

/// Which way a ray runs across the columns of tiles.
#[derive(Debug, Clone, Copy, PartialEq, Eq, Structural)]
pub enum HorizontalDirection {
    Right,
    Left,
}

/// Which way a ray runs across the rows of tiles.
#[derive(Debug, Clone, Copy, PartialEq, Eq, Structural)]
pub enum VerticalDirection {
    Up,
    Down,
}

/// The tiles of a layout: a `'1'` is a wall, any other character is floor.
pub open spec fn layout_tiles(layout: Seq<char>) -> Seq<bool> {
    Seq::new(layout.len(), |i: int| layout[i] == '1')
}

/// The world's layout, ten rows of sixteen tiles.
pub open spec fn world_layout() -> Seq<char> {
    "1111111111111111100000000001000110000110000100011000001000010001100000000000000110001000000000011000100001111001100010000100000110001000000000011111111111111111"@
}

/// The tile that a cell coordinate lies in (Rust's division, toward zero).
pub open spec fn tile_of(c: int) -> int {
    trunc_div(c, TILE_SIZE as int)
}

/// Whether the cell `(x, y)` lies in a wall as `tile_from_vec` reports it:
/// its tile, or a wall when the tile is off the grid.
pub open spec fn tile_at(tiles: Seq<bool>, x: int, y: int) -> bool {
    let tx = tile_of(x);
    let ty = tile_of(y);
    if tx < 0 || tx >= TILES_W || ty < 0 || ty >= TILES_H {
        true
    } else {
        tiles[tx + ty * TILES_W]
    }
}

/// Whether the tile at `index` blocks: a wall, or any index off the grid.
pub open spec fn blocks(tiles: Seq<bool>, index: int) -> bool {
    if 0 <= index < TILES_CUBE {
        tiles[index]
    } else {
        true
    }
}

/// Whether an `i32` computation of `v` stays in range.
pub open spec fn fits_i32(v: int) -> bool {
    i32::MIN <= v <= i32::MAX
}

/// The tile index that a column check looks at for the cell `(x, y)`: the
/// tile itself going right, the one to its left going left.
pub open spec fn column_index(dir: HorizontalDirection, x: int, y: int) -> int {
    match dir {
        HorizontalDirection::Right => tile_of(x) + tile_of(y) * TILES_W,
        HorizontalDirection::Left => (tile_of(x) - 1) + tile_of(y) * TILES_W,
    }
}

/// The tile index that a row check looks at for the cell `(x, y)`: the tile
/// itself going down, the one above it going up.
pub open spec fn row_index(dir: VerticalDirection, x: int, y: int) -> int {
    match dir {
        VerticalDirection::Down => tile_of(x) + tile_of(y) * TILES_W,
        VerticalDirection::Up => tile_of(x) + (tile_of(y) - 1) * TILES_W,
    }
}

/// On the grid, a ray crossing a column boundary going right, or a row
/// boundary going down, is stopped exactly when the cell's own tile is a wall;
/// going left it is the tile to the left that counts, going up the tile above.
pub proof fn lemma_boundary_checks_on_grid(tiles: Seq<bool>, x: int, y: int)
    requires
        tiles.len() == TILES_CUBE,
        0 <= tile_of(x) < TILES_W,
        0 <= tile_of(y) < TILES_H,
    ensures
        blocks(tiles, column_index(HorizontalDirection::Right, x, y)) == tile_at(tiles, x, y),
        blocks(tiles, row_index(VerticalDirection::Down, x, y)) == tile_at(tiles, x, y),
        tile_of(x) >= 1 ==> blocks(tiles, column_index(HorizontalDirection::Left, x, y))
            == tile_at(tiles, x - TILE_SIZE, y),
        tile_of(y) >= 1 ==> blocks(tiles, row_index(VerticalDirection::Up, x, y)) == tile_at(
            tiles,
            x,
            y - TILE_SIZE,
        ),
{
    let tx = tile_of(x);
    let ty = tile_of(y);
    assert(0 <= tx + ty * TILES_W < TILES_CUBE) by (nonlinear_arith)
        requires
            0 <= tx < 16,
            0 <= ty < 10,
    ;
    if tx >= 1 {
        assert(x >= 0);
        assert(tile_of(x - TILE_SIZE) == tx - 1);
    }
    if ty >= 1 {
        assert(y >= 0);
        assert(tile_of(y - TILE_SIZE) == ty - 1);
        assert(0 <= tx + (ty - 1) * TILES_W < TILES_CUBE) by (nonlinear_arith)
            requires
                0 <= tx < 16,
                1 <= ty < 10,
        ;
    }
}

/// The world is walled in: every tile of its first and last row and of its
/// first and last column is a wall.
pub proof fn lemma_world_is_walled()
    ensures
        layout_tiles(world_layout()).len() == TILES_CUBE,
        forall|k: int|
            0 <= k < TILES_W ==> #[trigger] layout_tiles(world_layout())[k] && layout_tiles(
                world_layout(),
            )[(TILES_H - 1) * TILES_W + k],
        forall|r: int|
            0 <= r < TILES_H ==> #[trigger] layout_tiles(world_layout())[r * TILES_W]
                && layout_tiles(world_layout())[r * TILES_W + TILES_W - 1],
{
    reveal_strlit(
        "1111111111111111100000000001000110000110000100011000001000010001100000000000000110001000000000011000100001111001100010000100000110001000000000011111111111111111",
    );
}

/// The top-left cell of tile number `k` in the 2D view.
pub open spec fn tile_corner(k: int) -> (int, int) {
    ((k * TILE_SIZE) % (SCREEN_W as int), (k / TILES_W as int) * TILE_SIZE)
}

/// The cells of a wall tile in the 2D view: the whole square whose top-left
/// cell is `(x1, y1)`, row by row.
pub open spec fn tile_fill(x1: int, y1: int) -> Seq<(i32, i32)> {
    Seq::new(
        (TILE_SIZE * TILE_SIZE) as nat,
        |k: int| ((x1 + k % (TILE_SIZE as int)) as i32, (y1 + k / (TILE_SIZE as int)) as i32),
    )
}

/// The cells of a floor tile in the 2D view: its top edge, then its left
/// edge, each a Bresenham line from the corner `(x1, y1)`.
pub open spec fn tile_outline(x1: int, y1: int) -> Seq<(i32, i32)> {
    bresenham_line(x1 as i32, y1 as i32, (x1 + TILE_SIZE) as i32, y1 as i32) + bresenham_line(
        x1 as i32,
        y1 as i32,
        x1 as i32,
        (y1 + TILE_SIZE) as i32,
    )
}

/// The cells drawn for tile number `k`, a wall or not.
pub open spec fn tile_cells(k: int, wall: bool) -> Seq<(i32, i32)> {
    let (x1, y1) = tile_corner(k);
    if wall {
        tile_fill(x1, y1)
    } else {
        tile_outline(x1, y1)
    }
}

/// The cells drawn for the first `n` tiles, tile after tile.
pub open spec fn cells_of_tiles(tiles: Seq<bool>, n: nat) -> Seq<(i32, i32)>
    decreases n,
{
    if n == 0 {
        Seq::empty()
    } else {
        cells_of_tiles(tiles, (n - 1) as nat) + tile_cells(n - 1, tiles[n - 1])
    }
}

/// Tile `k` of the grid is drawn with its top-left cell at its column times
/// the tile size across and its row times the tile size down, so on a grid of
/// 16 by 10 tiles every corner lies on the 80 by 50 screen with room for a
/// whole tile.
pub proof fn lemma_tile_corner(k: int)
    requires
        0 <= k < TILES_CUBE,
    ensures
        tile_corner(k) == ((k % (TILES_W as int)) * TILE_SIZE, (k / (TILES_W as int)) * TILE_SIZE),
        0 <= tile_corner(k).0 <= SCREEN_W - TILE_SIZE,
        0 <= tile_corner(k).1 <= SCREEN_H - TILE_SIZE,
{
    assert((k * 5) % 80 == (k % 16) * 5) by (nonlinear_arith)
        requires
            0 <= k,
    ;
    assert(0 <= k / 16 <= 9 && 0 <= k % 16 <= 15) by (nonlinear_arith)
        requires
            0 <= k < 160,
    ;
}

/// Every cell drawn for a wall tile of the grid lies on the 80 by 50 screen,
/// inside the tile's own square.
pub proof fn lemma_wall_tile_on_screen(k: int)
    requires
        0 <= k < TILES_CUBE,
    ensures
        tile_cells(k, true).len() == TILE_SIZE * TILE_SIZE,
        forall|j: int|
            0 <= j < tile_cells(k, true).len() ==> {
                let c = #[trigger] tile_cells(k, true)[j];
                &&& (k % (TILES_W as int)) * TILE_SIZE <= c.0 < (k % (TILES_W as int) + 1) * TILE_SIZE
                &&& (k / (TILES_W as int)) * TILE_SIZE <= c.1 < (k / (TILES_W as int) + 1) * TILE_SIZE
                &&& 0 <= c.0 < SCREEN_W
                &&& 0 <= c.1 < SCREEN_H
            },
{
    lemma_tile_corner(k);
    assert(0 <= k / 16 <= 9 && 0 <= k % 16 <= 15) by (nonlinear_arith)
        requires
            0 <= k < 160,
    ;
}

/// What is drawn for a tile is among what is drawn for the first `n` tiles
/// whenever the tile is one of them.
pub proof fn lemma_cells_of_tiles_include(tiles: Seq<bool>, n: nat, k: int, j: int)
    requires
        0 <= k < n,
        n <= tiles.len(),
        0 <= j < tile_cells(k, tiles[k]).len(),
    ensures
        cells_of_tiles(tiles, n).contains(tile_cells(k, tiles[k])[j]),
    decreases n,
{
    let prev = cells_of_tiles(tiles, (n - 1) as nat);
    let last = tile_cells(n - 1, tiles[n - 1]);
    assert(cells_of_tiles(tiles, n) == prev + last);
    if k == n - 1 {
        assert((prev + last)[prev.len() + j] == last[j]);
    } else {
        lemma_cells_of_tiles_include(tiles, (n - 1) as nat, k, j);
        let w = choose|w: int| 0 <= w < prev.len() && prev[w] == tile_cells(k, tiles[k])[j];
        assert((prev + last)[w] == prev[w]);
    }
}

/// How the player moves on a key press.
#[derive(Debug, Clone, Copy, PartialEq, Eq, Structural)]
pub enum PlayerMove {
    /// Lists the distance each ray travelled.
    PrintDistances,
    /// One step along the view direction.
    Forward,
    /// One step against the view direction.
    Backward,
    /// Turns the view one step to the left.
    TurnLeft,
    /// Turns the view one step to the right.
    TurnRight,
}

/// The move a key asks for: `Z` lists distances, `W`/`S` step forward and
/// back, `A`/`D` turn left and right; other keys, or none, do nothing.
pub fn player_move(key: Option<Key>) -> (m: Option<PlayerMove>)
    ensures
        m == match key {
            Some(Key::Z) => Some(PlayerMove::PrintDistances),
            Some(Key::W) => Some(PlayerMove::Forward),
            Some(Key::S) => Some(PlayerMove::Backward),
            Some(Key::A) => Some(PlayerMove::TurnLeft),
            Some(Key::D) => Some(PlayerMove::TurnRight),
            _ => None,
        },
{
    match key {
        Some(Key::Z) => Some(PlayerMove::PrintDistances),
        Some(Key::W) => Some(PlayerMove::Forward),
        Some(Key::S) => Some(PlayerMove::Backward),
        Some(Key::A) => Some(PlayerMove::TurnLeft),
        Some(Key::D) => Some(PlayerMove::TurnRight),
        _ => None,
    }
}

/// The grid of tiles, row by row; `true` is a wall.
#[derive(Clone, Debug)]
pub struct WorldMap {
    pub tiles: Vec<bool>,
}

impl WorldMap {
    /// A map holds one entry per tile of the grid.
    pub open spec fn wf(&self) -> bool {
        self.tiles.len() == TILES_CUBE
    }

    /// The map a layout describes, one tile per character.
    pub fn from_layout(layout: &str) -> (m: Self)
        ensures
            m.tiles@ == layout_tiles(layout@),
    {
        let n = layout.unicode_len();
        let mut tiles: Vec<bool> = Vec::new();
        for i in 0..n
            invariant
                n == layout@.len(),
                tiles@ == layout_tiles(layout@.take(i as int)),
        {
            let c = layout.get_char(i);
            if c == '1' {
                tiles.push(true);
            } else {
                tiles.push(false);
            }
            assert(layout_tiles(layout@.take(i + 1)) =~= layout_tiles(layout@.take(i as int)).push(
                c == '1',
            ));
        }
        assert(layout@.take(n as int) =~= layout@);
        WorldMap { tiles }
    }

    /// The world map.
    pub fn new() -> (m: Self)
        ensures
            m.wf(),
            m.tiles@ == layout_tiles(world_layout()),
    {
        let layout = "1111111111111111100000000001000110000110000100011000001000010001100000000000000110001000000000011000100001111001100010000100000110001000000000011111111111111111";
        proof {
            reveal_strlit(
                "1111111111111111100000000001000110000110000100011000001000010001100000000000000110001000000000011000100001111001100010000100000110001000000000011111111111111111",
            );
        }
        WorldMap::from_layout(layout)
    }

    /// Whether the cell `(x, y)` (rounded coordinates) lies in a wall; cells
    /// off the grid count as walls.
    pub fn tile_from_vec(&self, x: i32, y: i32) -> (r: bool)
        requires
            self.wf(),
            fits_i32(tile_of(y as int) * TILES_W),
            fits_i32(tile_of(x as int) + tile_of(y as int) * TILES_W),
        ensures
            r == tile_at(self.tiles@, x as int, y as int),
    {
        let tx: i32 = x / TILE_SIZE;
        let ty: i32 = y / TILE_SIZE;
        let index: i32 = tx + ty * TILES_W;
        if tx < 0 || tx >= TILES_W || ty < 0 || ty >= TILES_H {
            return true;
        }
        self.tiles[index as usize]
    }

    /// The tile that the cell `(x, y)` (floored coordinates) lies in.
    pub fn mapspace_to_tilespace(&self, x: i32, y: i32) -> (r: (i32, i32))
        ensures
            r.0 == tile_of(x as int),
            r.1 == tile_of(y as int),
    {
        (x / TILE_SIZE, y / TILE_SIZE)
    }

    /// Whether a ray running `dir` that crosses a column boundary at the cell
    /// `(x, y)` (floored coordinates) is stopped there.
    pub fn check_column_tile(&self, dir: HorizontalDirection, x: i32, y: i32) -> (r: bool)
        requires
            self.wf(),
            fits_i32(tile_of(y as int) * TILES_W),
            fits_i32(column_index(dir, x as int, y as int)),
        ensures
            r == blocks(self.tiles@, column_index(dir, x as int, y as int)),
    {
        let (tx, ty) = self.mapspace_to_tilespace(x, y);
        let index: i32 = match dir {
            HorizontalDirection::Right => tx + ty * TILES_W,
            HorizontalDirection::Left => (tx - 1) + ty * TILES_W,
        };
        if index >= 0 && index < TILES_W * TILES_H {
            self.tiles[index as usize]
        } else {
            true
        }
    }

    /// Whether a ray running `dir` that crosses a row boundary at the cell
    /// `(x, y)` (floored coordinates) is stopped there.
    pub fn check_row_tile(&self, dir: VerticalDirection, x: i32, y: i32) -> (r: bool)
        requires
            self.wf(),
            dir == VerticalDirection::Down ==> fits_i32(tile_of(y as int) * TILES_W),
            dir == VerticalDirection::Up ==> fits_i32((tile_of(y as int) - 1) * TILES_W),
            fits_i32(row_index(dir, x as int, y as int)),
        ensures
            r == blocks(self.tiles@, row_index(dir, x as int, y as int)),
    {
        let (tx, ty) = self.mapspace_to_tilespace(x, y);
        let index: i32 = match dir {
            VerticalDirection::Down => tx + ty * TILES_W,
            VerticalDirection::Up => tx + (ty - 1) * TILES_W,
        };
        if index >= 0 && index < TILES_W * TILES_H {
            self.tiles[index as usize]
        } else {
            true
        }
    }

    /// The cells the 2D view draws, tile after tile: a wall tile is filled, a
    /// floor tile gets its top and left edges.
    pub fn render_2d(&self) -> (cells: Vec<(i32, i32)>)
        requires
            self.wf(),
        ensures
            cells@ == cells_of_tiles(self.tiles@, self.tiles@.len()),
            forall|k: int, j: int|
                0 <= k < TILES_CUBE && self.tiles@[k] && 0 <= j < TILE_SIZE * TILE_SIZE
                    ==> #[trigger] cells@.contains(
                    (
                        ((k % (TILES_W as int)) * TILE_SIZE + j % (TILE_SIZE as int)) as i32,
                        ((k / (TILES_W as int)) * TILE_SIZE + j / (TILE_SIZE as int)) as i32,
                    ),
                ),
    {
        let mut cells: Vec<(i32, i32)> = Vec::new();
        let mut counter: i32 = 0;
        for i in 0..self.tiles.len()
            invariant
                self.wf(),
                counter == i,
                cells@ == cells_of_tiles(self.tiles@, i as nat),
        {
            let x1 = (counter * TILE_SIZE) % SCREEN_W;
            let y1 = counter / TILES_W * TILE_SIZE;
            let x2 = x1 + TILE_SIZE;
            let y2 = y1 + TILE_SIZE;
            assert(0 <= x1 < SCREEN_W && 0 <= y1 <= 50);
            let ghost before = cells@;
            if self.tiles[i] {
                let mut y = y1;
                while y < y2
                    invariant
                        y1 <= y <= y2,
                        y2 == y1 + TILE_SIZE,
                        x2 == x1 + TILE_SIZE,
                        0 <= x1 < SCREEN_W,
                        0 <= y1 <= 50,
                        cells@ == before + tile_fill(x1 as int, y1 as int).take((y - y1) * TILE_SIZE),
                    decreases y2 - y,
                {
                    let mut x = x1;
                    while x < x2
                        invariant
                            x1 <= x <= x2,
                            y1 <= y < y2,
                            y2 == y1 + TILE_SIZE,
                            x2 == x1 + TILE_SIZE,
                            0 <= x1 < SCREEN_W,
                            0 <= y1 <= 50,
                            cells@ == before + tile_fill(x1 as int, y1 as int).take(
                                (y - y1) * TILE_SIZE + (x - x1),
                            ),
                        decreases x2 - x,
                    {
                        let ghost k = (y - y1) * TILE_SIZE + (x - x1);
                        assert(k % (TILE_SIZE as int) == x - x1 && k / (TILE_SIZE as int) == y - y1);
                        cells.push((x, y));
                        assert(tile_fill(x1 as int, y1 as int).take(k + 1) =~= tile_fill(
                            x1 as int,
                            y1 as int,
                        ).take(k).push((x, y)));
                        x = x + 1;
                    }
                    y = y + 1;
                }
                assert(tile_fill(x1 as int, y1 as int).take(TILE_SIZE * TILE_SIZE) =~= tile_fill(
                    x1 as int,
                    y1 as int,
                ));
            } else {
                let mut top = bresenham_points(x1, y1, x2, y1);
                let mut left = bresenham_points(x1, y1, x1, y2);
                cells.append(&mut top);
                cells.append(&mut left);
            }
            assert(cells_of_tiles(self.tiles@, (i + 1) as nat) == cells_of_tiles(
                self.tiles@,
                i as nat,
            ) + tile_cells(i as int, self.tiles@[i as int]));
            counter = counter + 1;
        }
        proof {
            assert forall|k: int, j: int|
                0 <= k < TILES_CUBE && self.tiles@[k] && 0 <= j < TILE_SIZE * TILE_SIZE implies #[trigger] cells@.contains(
                (
                    ((k % (TILES_W as int)) * TILE_SIZE + j % (TILE_SIZE as int)) as i32,
                    ((k / (TILES_W as int)) * TILE_SIZE + j / (TILE_SIZE as int)) as i32,
                ),
            ) by {
                lemma_tile_corner(k);
                lemma_cells_of_tiles_include(self.tiles@, self.tiles@.len(), k, j);
            }
        }
        cells
    }
}

} // verus!
