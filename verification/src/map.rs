//! The tile grid: a flat, row-major array of 80 by 50 tiles.

use crate::components::{to_cp437, Color, DrawCall};
use crate::dice::{new_rng, rng_range, rng_roll_dice};
use crate::dungeon::{
    add_room, all_valid, generate, lemma_generate_sound, lemma_valid_roll_room, room_fits, sound,
    Dungeon, RoomRoll, MAX_ROOMS, MAX_SIZE, MIN_SIZE,
};
use crate::rect::Rect;
use vstd::prelude::*;

verus! {

/// The number of columns of the grid.
pub const MAP_WIDTH: i32 = 80;

/// The number of rows of the grid.
pub const MAP_HEIGHT: i32 = 50;

/// The number of tiles of the grid.
pub const MAP_SIZE: usize = 4000;

/// The terrain of one cell.
#[derive(Clone, Copy, Debug, PartialEq, Eq, Structural)]
pub enum TileType {
    Wall,
    Floor,
}

/// What a lookup in the grid can fail with.
#[derive(Clone, Copy, Debug, PartialEq, Eq, Structural)]
pub enum MapError {
    /// The coordinates name no cell of the grid.
    OutOfBounds,
}

/// `(x, y)` names a cell of the grid.
pub open spec fn in_bounds(x: int, y: int) -> bool {
    0 <= x < 80 && 0 <= y < 50
}

/// The place of cell `(x, y)` in the flat array.
pub open spec fn cell_index(x: int, y: int) -> int {
    y * 80 + x
}

/// `(x, y)` lies on the outermost ring of the grid.
pub open spec fn on_border(x: int, y: int) -> bool {
    in_bounds(x, y) && (x == 0 || x == 79 || y == 0 || y == 49)
}

/// The tiles are a whole grid.
pub open spec fn is_grid(tiles: Seq<TileType>) -> bool {
    tiles.len() == 4000
}

/// Every cell of the outermost ring is a wall.
pub open spec fn walled_in(tiles: Seq<TileType>) -> bool {
    forall|x: int, y: int| #[trigger]
        on_border(x, y) ==> tiles[cell_index(x, y)] == TileType::Wall
}

/// The index of cell `(x, y)` in the flat array.
pub fn xy_idx(x: i32, y: i32) -> (idx: usize)
    requires
        in_bounds(x as int, y as int),
    ensures
        idx == cell_index(x as int, y as int),
        idx < 4000,
{
    (y as usize * 80) + x as usize
}

/// Distinct cells of the grid have distinct indices.
pub proof fn lemma_cell_index_injective(x1: int, y1: int, x2: int, y2: int)
    requires
        in_bounds(x1, y1),
        in_bounds(x2, y2),
        cell_index(x1, y1) == cell_index(x2, y2),
    ensures
        x1 == x2,
        y1 == y2,
{
}

/// The indices of the cells of the grid are the numbers below 4000, and
/// index `i` belongs to the cell in column `i % 80` of row `i / 80`.
pub proof fn lemma_cell_of_index(x: int, y: int, i: int)
    ensures
        in_bounds(x, y) ==> 0 <= cell_index(x, y) < 4000,
        in_bounds(x, y) ==> cell_index(x, y) % 80 == x && cell_index(x, y) / 80 == y,
        0 <= i < 4000 ==> in_bounds(i % 80, i / 80) && cell_index(i % 80, i / 80) == i,
{
}

/// The tile at `(x, y)`, or `OutOfBounds` where the grid has no such cell.
pub fn tile_at(map: &[TileType], x: i32, y: i32) -> (r: Result<TileType, MapError>)
    ensures
        r == (if in_bounds(x as int, y as int) && cell_index(x as int, y as int) < map@.len() {
            Ok(map@[cell_index(x as int, y as int)])
        } else {
            Err(MapError::OutOfBounds)
        }),
{
    if x < 0 || x >= MAP_WIDTH || y < 0 || y >= MAP_HEIGHT {
        return Err(MapError::OutOfBounds);
    }
    let idx = xy_idx(x, y);
    if idx < map.len() {
        Ok(map[idx])
    } else {
        Err(MapError::OutOfBounds)
    }
}

/// A grid of 4000 tiles, all of them `tile`.
pub fn filled_map(tile: TileType) -> (map: Vec<TileType>)
    ensures
        map@ == Seq::new(4000, |i: int| tile),
{
    let map = vec![tile; MAP_SIZE];
    assert(map@ =~= Seq::new(4000, |i: int| tile));
    map
}

/// `(x, y)` is one of the cells that carving `room` turns into floor: the
/// rectangle without its first column and its first row.
pub open spec fn in_room(room: Rect, x: int, y: int) -> bool {
    room.x1 < x <= room.x2 && room.y1 < y <= room.y2
}

/// Both corners of `room` are cells of the grid, the first no further
/// right and no further down than the second.
pub open spec fn room_in_grid(room: Rect) -> bool {
    &&& 0 <= room.x1 <= room.x2 < 80
    &&& 0 <= room.y1 <= room.y2 < 50
}

/// The tiles after `room` was carved: its cells are floor, the others are
/// what they were.
pub open spec fn carve_room(tiles: Seq<TileType>, room: Rect) -> Seq<TileType> {
    Seq::new(
        tiles.len(),
        |i: int|
            if in_room(room, i % 80, i / 80) {
                TileType::Floor
            } else {
                tiles[i]
            },
    )
}

/// Index `i` of the array is the place `y * 80 + x` of some `(x, y)` with
/// `x` between `x1` and `x2`, in either order, and neither `x` nor `y`
/// negative. Where `x` is above 79 that place lies in a later row.
pub open spec fn in_horizontal_run(x1: int, x2: int, y: int, i: int) -> bool {
    &&& 0 <= i < 4000
    &&& 0 <= y
    &&& 0 <= i - y * 80
    &&& x1 <= i - y * 80 <= x2 || x2 <= i - y * 80 <= x1
}

/// Index `i` of the array is the place `y * 80 + x` of some `(x, y)` with
/// `y` between `y1` and `y2`, in either order, and neither `x` nor `y`
/// negative. Where `x` is above 79 that place lies in a later row.
pub open spec fn in_vertical_run(y1: int, y2: int, x: int, i: int) -> bool {
    &&& 0 <= i < 4000
    &&& 0 <= x <= i
    &&& (i - x) % 80 == 0
    &&& y1 <= (i - x) / 80 <= y2 || y2 <= (i - x) / 80 <= y1
}

/// The places of a horizontal tunnel are those that the array has for its
/// cells: place `i` is one of them exactly if some `x` between the two
/// ends, not negative, in a row `y` that is not negative, has `i` for its
/// place `y * 80 + x`. So both ends are among them wherever the array
/// reaches that far, the first place of the array included.
pub proof fn lemma_horizontal_run_cells(x1: int, x2: int, y: int, i: int)
    requires
        0 <= i < 4000,
    ensures
        in_horizontal_run(x1, x2, y, i) <==> 0 <= y && exists|x: int|
            0 <= x && (x1 <= x <= x2 || x2 <= x <= x1) && #[trigger] cell_index(x, y) == i,
{
    if in_horizontal_run(x1, x2, y, i) {
        assert(cell_index(i - y * 80, y) == i);
    }
}

/// The places of a vertical tunnel are those that the array has for its
/// cells: place `i` is one of them exactly if some `y` between the two
/// ends, not negative, in a column `x` that is not negative, has `i` for
/// its place `y * 80 + x`.
pub proof fn lemma_vertical_run_cells(y1: int, y2: int, x: int, i: int)
    requires
        0 <= i < 4000,
    ensures
        in_vertical_run(y1, y2, x, i) <==> 0 <= x && exists|y: int|
            0 <= y && (y1 <= y <= y2 || y2 <= y <= y1) && #[trigger] cell_index(x, y) == i,
{
    if in_vertical_run(y1, y2, x, i) {
        assert(cell_index(x, (i - x) / 80) == i);
    }
    if 0 <= x && exists|y: int|
        0 <= y && (y1 <= y <= y2 || y2 <= y <= y1) && #[trigger] cell_index(x, y) == i {
        let y = choose|y: int|
            0 <= y && (y1 <= y <= y2 || y2 <= y <= y1) && #[trigger] cell_index(x, y) == i;
        assert(i - x == y * 80);
        assert((i - x) / 80 == y && (i - x) % 80 == 0);
    }
}

/// The tiles after a tunnel was dug along row `y` from column `x1` to
/// column `x2`: every place that the array has for one of its cells is
/// floor, the others are what they were.
pub open spec fn carve_horizontal(tiles: Seq<TileType>, x1: int, x2: int, y: int) -> Seq<
    TileType,
> {
    Seq::new(
        tiles.len(),
        |i: int|
            if in_horizontal_run(x1, x2, y, i) {
                TileType::Floor
            } else {
                tiles[i]
            },
    )
}

/// The tiles after a tunnel was dug along column `x` from row `y1` to row
/// `y2`: every place that the array has for one of its cells is floor, the
/// others are what they were.
pub open spec fn carve_vertical(tiles: Seq<TileType>, y1: int, y2: int, x: int) -> Seq<TileType> {
    Seq::new(
        tiles.len(),
        |i: int|
            if in_vertical_run(y1, y2, x, i) {
                TileType::Floor
            } else {
                tiles[i]
            },
    )
}

/// Turns the cells of `room` into floor.
pub fn apply_room_to_map(room: &Rect, map: &mut Vec<TileType>)
    requires
        is_grid(old(map)@),
        room_in_grid(*room),
    ensures
        final(map)@ == carve_room(old(map)@, *room),
{
    let ghost before = map@;
    let mut y: i32 = room.y1 + 1;
    while y <= room.y2
        invariant
            room_in_grid(*room),
            room.y1 < y <= room.y2 + 1,
            map@.len() == 4000,
            before.len() == 4000,
            forall|i: int|
                0 <= i < 4000 ==> #[trigger] map@[i] == (if in_room(*room, i % 80, i / 80) && i
                    / 80 < y {
                    TileType::Floor
                } else {
                    before[i]
                }),
        decreases room.y2 + 1 - y,
    {
        let mut x: i32 = room.x1 + 1;
        while x <= room.x2
            invariant
                room_in_grid(*room),
                room.y1 < y <= room.y2,
                room.x1 < x <= room.x2 + 1,
                map@.len() == 4000,
                before.len() == 4000,
                forall|i: int|
                    0 <= i < 4000 ==> #[trigger] map@[i] == (if in_room(*room, i % 80, i / 80) && (i
                        / 80 < y || (i / 80 == y && i % 80 < x)) {
                        TileType::Floor
                    } else {
                        before[i]
                    }),
            decreases room.x2 + 1 - x,
        {
            let idx = xy_idx(x, y);
            map[idx] = TileType::Floor;
            x += 1;
        }
        y += 1;
    }
    assert(map@ =~= carve_room(before, *room));
}

/// Digs a tunnel along row `y` between columns `x1` and `x2`, both ends
/// included. Each write goes to place `y * 80 + x` of the array; one beyond
/// the end of the array is dropped, and so is one at a negative column or
/// row.
pub fn apply_horizontal_tunnel(map: &mut Vec<TileType>, x1: i32, x2: i32, y: i32)
    requires
        is_grid(old(map)@),
    ensures
        final(map)@ == carve_horizontal(old(map)@, x1 as int, x2 as int, y as int),
{
    let ghost before = map@;
    let lo: i64 = if x1 <= x2 { x1 as i64 } else { x2 as i64 };
    let hi: i64 = if x1 <= x2 { x2 as i64 } else { x1 as i64 };
    let mut x: i64 = lo;
    while x <= hi
        invariant
            lo <= x <= hi + 1,
            lo <= hi,
            i32::MIN <= lo,
            hi <= i32::MAX,
            map@.len() == 4000,
            before.len() == 4000,
            forall|i: int|
                0 <= i < 4000 ==> #[trigger] map@[i] == (if in_horizontal_run(
                    lo as int,
                    hi as int,
                    y as int,
                    i,
                ) && i - y * 80 < x {
                    TileType::Floor
                } else {
                    before[i]
                }),
        decreases hi + 1 - x,
    {
        if 0 <= x && 0 <= y {
            let idx: i64 = y as i64 * 80 + x;
            if idx < MAP_SIZE as i64 {
                map[idx as usize] = TileType::Floor;
            }
        }
        x += 1;
    }
    assert(map@ =~= carve_horizontal(before, x1 as int, x2 as int, y as int));
}

/// Digs a tunnel along column `x` between rows `y1` and `y2`, both ends
/// included. Each write goes to place `y * 80 + x` of the array; one beyond
/// the end of the array is dropped, and so is one at a negative column or
/// row.
pub fn apply_vertical_tunnel(map: &mut Vec<TileType>, y1: i32, y2: i32, x: i32)
    requires
        is_grid(old(map)@),
    ensures
        final(map)@ == carve_vertical(old(map)@, y1 as int, y2 as int, x as int),
{
    let ghost before = map@;
    let lo: i64 = if y1 <= y2 { y1 as i64 } else { y2 as i64 };
    let hi: i64 = if y1 <= y2 { y2 as i64 } else { y1 as i64 };
    let mut y: i64 = lo;
    while y <= hi
        invariant
            lo <= y <= hi + 1,
            lo <= hi,
            i32::MIN <= lo,
            hi <= i32::MAX,
            map@.len() == 4000,
            before.len() == 4000,
            forall|i: int|
                0 <= i < 4000 ==> #[trigger] map@[i] == (if in_vertical_run(
                    lo as int,
                    hi as int,
                    x as int,
                    i,
                ) && (i - x) / 80 < y {
                    TileType::Floor
                } else {
                    before[i]
                }),
        decreases hi + 1 - y,
    {
        if 0 <= x && 0 <= y {
            let idx: i64 = y * 80 + x as i64;
            if idx < MAP_SIZE as i64 {
                map[idx as usize] = TileType::Floor;
            }
        }
        y += 1;
    }
    assert(map@ =~= carve_vertical(before, y1 as int, y2 as int, x as int));
}

/// The open field: floor, with walls on the outermost ring.
pub open spec fn open_field() -> Seq<TileType> {
    Seq::new(
        4000,
        |i: int|
            if on_border(i % 80, i / 80) {
                TileType::Wall
            } else {
                TileType::Floor
            },
    )
}

/// The tiles after a wall was put at `(x, y)`. The cell `(40, 25)`, where
/// the player starts, takes no wall.
pub open spec fn with_wall(tiles: Seq<TileType>, x: int, y: int) -> Seq<TileType> {
    if cell_index(x, y) != cell_index(40, 25) {
        tiles.update(cell_index(x, y), TileType::Wall)
    } else {
        tiles
    }
}

/// The tiles after a wall was put at each of `spots`, in order.
pub open spec fn with_walls(tiles: Seq<TileType>, spots: Seq<(int, int)>) -> Seq<TileType>
    decreases spots.len(),
{
    if spots.len() == 0 {
        tiles
    } else {
        with_wall(with_walls(tiles, spots.drop_last()), spots.last().0, spots.last().1)
    }
}

/// `spots` are 400 cells as the test map rolls them: a column from 1 to 79
/// and a row from 1 to 49 each.
pub open spec fn test_map_spots(spots: Seq<(int, int)>) -> bool {
    &&& spots.len() == 400
    &&& forall|k: int|
        0 <= k < spots.len() ==> 1 <= (#[trigger] spots[k]).0 <= 79 && 1 <= spots[k].1 <= 49
}

/// `tiles` is the open field with a wall at each of `spots`.
pub open spec fn test_map_of(tiles: Seq<TileType>, spots: Seq<(int, int)>) -> bool {
    test_map_spots(spots) && tiles == with_walls(open_field(), spots)
}

/// A map of floor with walls on its outermost ring.
pub fn bordered_map() -> (map: Vec<TileType>)
    ensures
        map@ == open_field(),
{
    let mut map = filled_map(TileType::Floor);
    let mut x: i32 = 0;
    while x < 80
        invariant
            0 <= x <= 80,
            map@.len() == 4000,
            forall|i: int|
                0 <= i < 4000 ==> #[trigger] map@[i] == (if (i / 80 == 0 || i / 80 == 49) && i % 80
                    < x {
                    TileType::Wall
                } else {
                    TileType::Floor
                }),
        decreases 80 - x,
    {
        let top = xy_idx(x, 0);
        map[top] = TileType::Wall;
        let bottom = xy_idx(x, 49);
        map[bottom] = TileType::Wall;
        x += 1;
    }
    let mut y: i32 = 0;
    while y < 50
        invariant
            0 <= y <= 50,
            map@.len() == 4000,
            forall|i: int|
                0 <= i < 4000 ==> #[trigger] map@[i] == (if i / 80 == 0 || i / 80 == 49 || ((i % 80
                    == 0 || i % 80 == 79) && i / 80 < y) {
                    TileType::Wall
                } else {
                    TileType::Floor
                }),
        decreases 50 - y,
    {
        let left = xy_idx(0, y);
        map[left] = TileType::Wall;
        let right = xy_idx(79, y);
        map[right] = TileType::Wall;
        y += 1;
    }
    assert(map@ =~= open_field());
    map
}

/// Puts a wall at `(x, y)`, unless that is the cell `(40, 25)`.
pub fn place_wall(map: &mut Vec<TileType>, x: i32, y: i32)
    requires
        is_grid(old(map)@),
        in_bounds(x as int, y as int),
    ensures
        final(map)@ == with_wall(old(map)@, x as int, y as int),
{
    let idx = xy_idx(x, y);
    if idx != xy_idx(40, 25) {
        map[idx] = TileType::Wall;
    }
}

/// A map with solid boundaries and 400 walls at random places.
///
/// Whatever is rolled, the map is the open field with a wall at each of
/// the 400 rolled cells; so its outermost ring is wall and the cell
/// `(40, 25)` is floor.
pub fn new_map_test() -> (map: Vec<TileType>)
    ensures
        exists|spots: Seq<(int, int)>| #[trigger] test_map_of(map@, spots),
        is_grid(map@),
        walled_in(map@),
        map@[cell_index(40, 25)] == TileType::Floor,
{
    let mut map = bordered_map();
    let mut rng = new_rng();
    let ghost mut spots: Seq<(int, int)> = Seq::empty();
    let mut i: i32 = 0;
    while i < 400
        invariant
            0 <= i <= 400,
            spots.len() == i,
            forall|k: int|
                0 <= k < spots.len() ==> 1 <= (#[trigger] spots[k]).0 <= 79 && 1 <= spots[k].1
                    <= 49,
            map@ == with_walls(open_field(), spots),
            is_grid(map@),
            walled_in(map@),
            map@[cell_index(40, 25)] == TileType::Floor,
        decreases 400 - i,
    {
        let x = rng_roll_dice(&mut rng, 1, 79);
        let y = rng_roll_dice(&mut rng, 1, 49);
        proof {
            let ghost before = spots;
            spots = spots.push((x as int, y as int));
            assert(spots.drop_last() =~= before);
            assert forall|bx: int, by: int| #[trigger] on_border(bx, by) implies with_wall(
                map@,
                x as int,
                y as int,
            )[cell_index(bx, by)] == TileType::Wall by {
                assert(map@[cell_index(bx, by)] == TileType::Wall);
            }
        }
        place_wall(&mut map, x, y);
        i += 1;
    }
    assert(test_map_of(map@, spots));
    map
}

/// `rooms` and `tiles` are what the thirty attempts in `rolls` build.
pub open spec fn built_by(rooms: Seq<Rect>, tiles: Seq<TileType>, rolls: Seq<RoomRoll>) -> bool {
    &&& rolls.len() == 30
    &&& all_valid(rolls)
    &&& rooms == generate(rolls).rooms
    &&& tiles == generate(rolls).tiles
}

/// A map of rooms joined by corridors, and its rooms in the order in which
/// they were accepted.
///
/// Thirty rooms are rolled; one that overlaps an accepted room is dropped.
/// Whatever is rolled, the result is what thirty valid rolls build: between
/// one and thirty rooms, no two of them overlapping, each of them floor,
/// in a grid whose outermost ring is wall.
pub fn new_map_rooms_and_corridors() -> (res: (Vec<Rect>, Vec<TileType>))
    ensures
        exists|rolls: Seq<RoomRoll>| #[trigger] built_by(res.0@, res.1@, rolls),
        sound(Dungeon { rooms: res.0@, tiles: res.1@ }),
        1 <= res.0@.len() <= 30,
{
    let mut map = filled_map(TileType::Wall);
    let mut rooms: Vec<Rect> = Vec::new();
    let mut rng = new_rng();
    let ghost mut rolls: Seq<RoomRoll> = Seq::empty();
    let mut i: i32 = 0;
    while i < MAX_ROOMS
        invariant
            0 <= i <= MAX_ROOMS,
            rolls.len() == i,
            all_valid(rolls),
            is_grid(map@),
            (Dungeon { rooms: rooms@, tiles: map@ }) == generate(rolls),
        decreases MAX_ROOMS - i,
    {
        let w = rng_range(&mut rng, MIN_SIZE, MAX_SIZE);
        let h = rng_range(&mut rng, MIN_SIZE, MAX_SIZE);
        let x = rng_roll_dice(&mut rng, 1, 80 - w - 1) - 1;
        let y = rng_roll_dice(&mut rng, 1, 50 - h - 1) - 1;
        let new_room = Rect::new(x, y, w, h);
        let ghost mut roll = RoomRoll { w, h, x: (x + 1) as i32, y: (y + 1) as i32, coin: 0 };
        proof {
            lemma_valid_roll_room(roll);
        }
        if room_fits(&rooms, &new_room) {
            let mut horizontal_first = false;
            if !rooms.is_empty() {
                let coin = rng_range(&mut rng, 0, 2);
                horizontal_first = coin == 1;
                proof {
                    roll = RoomRoll { coin, ..roll };
                }
            }
            add_room(&mut rooms, &mut map, new_room, horizontal_first);
        }
        proof {
            let ghost before = rolls;
            rolls = rolls.push(roll);
            assert(rolls.drop_last() =~= before);
            assert(rolls.last() == roll);
        }
        i += 1;
    }
    let res = (rooms, map);
    proof {
        lemma_generate_sound(rolls);
        assert(built_by(res.0@, res.1@, rolls));
    }
    res
}

/// How the tile at index `i` of the array is drawn: floor in grey, half of
/// each part, and a wall in full green, each with its glyph, on black, at
/// column `i % 80` of row `i / 80`.
pub open spec fn tile_draw(i: int, tile: TileType, floor_glyph: u16, wall_glyph: u16) -> DrawCall {
    DrawCall {
        x: (i % 80) as i32,
        y: (i / 80) as i32,
        fg: match tile {
            TileType::Floor => Color { r: 500, g: 500, b: 500 },
            TileType::Wall => Color { r: 0, g: 1000, b: 0 },
        },
        bg: Color { r: 0, g: 0, b: 0 },
        glyph: match tile {
            TileType::Floor => floor_glyph,
            TileType::Wall => wall_glyph,
        },
    }
}

/// The calls that draw the tiles with the two glyphs, one call for each
/// tile, in the order of the array.
pub open spec fn tile_draws(tiles: Seq<TileType>, floor_glyph: u16, wall_glyph: u16) -> Seq<
    DrawCall,
> {
    Seq::new(tiles.len(), |i: int| tile_draw(i, tiles[i], floor_glyph, wall_glyph))
}

/// The calls that draw the tiles: floor as a dot, glyph 46, and a wall as
/// a hash, glyph 35.
pub open spec fn map_draws(tiles: Seq<TileType>) -> Seq<DrawCall> {
    tile_draws(tiles, 46, 35)
}

/// The calls that draw the map with the two glyphs, tile by tile, row
/// after row.
pub fn draw_tiles(map: &[TileType], floor_glyph: u16, wall_glyph: u16) -> (calls: Vec<DrawCall>)
    requires
        map@.len() / 80 <= i32::MAX,
    ensures
        calls@ == tile_draws(map@, floor_glyph, wall_glyph),
{
    let mut calls: Vec<DrawCall> = Vec::new();
    let mut y: i32 = 0;
    let mut x: i32 = 0;
    let mut i: usize = 0;
    while i < map.len()
        invariant
            i <= map@.len(),
            map@.len() / 80 <= i32::MAX,
            x == i % 80,
            y == i / 80,
            calls@.len() == i,
            forall|k: int|
                0 <= k < i ==> #[trigger] calls@[k] == tile_draw(
                    k,
                    map@[k],
                    floor_glyph,
                    wall_glyph,
                ),
        decreases map@.len() - i,
    {
        match map[i] {
            TileType::Floor => {
                calls.push(
                    DrawCall { x, y, fg: Color::grey(), bg: Color::black(), glyph: floor_glyph },
                );
            },
            TileType::Wall => {
                calls.push(
                    DrawCall { x, y, fg: Color::green(), bg: Color::black(), glyph: wall_glyph },
                );
            },
        }
        x += 1;
        if x > 79 {
            x = 0;
            y += 1;
        }
        i += 1;
    }
    assert(calls@ =~= tile_draws(map@, floor_glyph, wall_glyph));
    calls
}

/// The calls that draw the map: a grey dot for floor and a green hash for
/// a wall.
pub fn draw_map(map: &[TileType]) -> (calls: Vec<DrawCall>)
    requires
        map@.len() / 80 <= i32::MAX,
    ensures
        calls@ == map_draws(map@),
{
    draw_tiles(map, to_cp437('.'), to_cp437('#'))
}

/// Drawing the map twice gives the same calls: whatever two runs of
/// `draw_map` hand back for one slice of tiles, the two are the same calls
/// in the same order.
pub proof fn lemma_draw_map_repeats(map: &[TileType], first: Vec<DrawCall>, second: Vec<DrawCall>)
    requires
        call_ensures(draw_map, (map,), first),
        call_ensures(draw_map, (map,), second),
    ensures
        first@ == second@,
{
}

} // verus!
