//! Rooms and corridors: what the generator builds from the numbers it draws.

use crate::map::{
    apply_horizontal_tunnel, apply_room_to_map, apply_vertical_tunnel, carve_horizontal,
    carve_room, carve_vertical, cell_index, filled_map, in_bounds, in_horizontal_run, in_room,
    in_vertical_run, is_grid, on_border, room_in_grid, walled_in, TileType,
};
use crate::rect::Rect;
use vstd::prelude::*;

verus! {

/// The number of rooms that the generator tries to place.
pub const MAX_ROOMS: i32 = 30;

/// The least width and height of a room.
pub const MIN_SIZE: i32 = 6;

/// The bound that the width and height of a room stay below.
pub const MAX_SIZE: i32 = 10;

/// The numbers drawn for one attempt to place a room.
#[derive(Clone, Copy, Debug, PartialEq, Eq, Structural)]
pub struct RoomRoll {
    /// The width, drawn from `MIN_SIZE` up to but without `MAX_SIZE`.
    pub w: i32,
    /// The height, drawn likewise.
    pub h: i32,
    /// One die of `80 - w - 1` faces: one more than the room's left edge.
    pub x: i32,
    /// One die of `50 - h - 1` faces: one more than the room's top edge.
    pub y: i32,
    /// Zero or one; with one the corridor to the room before starts
    /// horizontally. It is read only where a corridor is dug.
    pub coin: i32,
}

impl RoomRoll {
    /// Each number lies in the range that it is drawn from.
    pub open spec fn valid(&self) -> bool {
        &&& 6 <= self.w < 10
        &&& 6 <= self.h < 10
        &&& 1 <= self.x <= 80 - self.w - 1
        &&& 1 <= self.y <= 50 - self.h - 1
        &&& 0 <= self.coin < 2
    }

    /// The room that the numbers describe.
    pub open spec fn candidate(&self) -> Rect {
        Rect {
            x1: (self.x - 1) as i32,
            x2: (self.x - 1 + self.w) as i32,
            y1: (self.y - 1) as i32,
            y2: (self.y - 1 + self.h) as i32,
        }
    }

    /// Whether each number lies in the range that it is drawn from.
    pub fn is_valid(&self) -> (ok: bool)
        ensures
            ok == self.valid(),
    {
        MIN_SIZE <= self.w && self.w < MAX_SIZE && MIN_SIZE <= self.h && self.h < MAX_SIZE && 1
            <= self.x && self.x <= 80 - self.w - 1 && 1 <= self.y && self.y <= 50 - self.h - 1 && 0
            <= self.coin && self.coin < 2
    }

    /// The room that the numbers describe.
    pub fn room(&self) -> (r: Rect)
        requires
            self.valid(),
        ensures
            r == self.candidate(),
    {
        Rect::new(self.x - 1, self.y - 1, self.w, self.h)
    }
}

/// The accepted rooms, in the order of their acceptance, and the tiles.
pub struct Dungeon {
    pub rooms: Seq<Rect>,
    pub tiles: Seq<TileType>,
}

/// `room` overlaps none of `rooms`.
pub open spec fn fits(rooms: Seq<Rect>, room: Rect) -> bool {
    forall|i: int| 0 <= i < rooms.len() ==> !room.overlaps(&#[trigger] rooms[i])
}

/// The tiles after an L-shaped corridor was dug between two cells: along
/// the row of `from` and then the column of `to`, or along the column of
/// `from` and then the row of `to`.
pub open spec fn connect(
    tiles: Seq<TileType>,
    from: (int, int),
    to: (int, int),
    horizontal_first: bool,
) -> Seq<TileType> {
    if horizontal_first {
        carve_vertical(carve_horizontal(tiles, from.0, to.0, from.1), from.1, to.1, to.0)
    } else {
        carve_horizontal(carve_vertical(tiles, from.1, to.1, from.0), from.0, to.0, to.1)
    }
}

/// The dungeon after `room` was accepted: it is carved, joined to the room
/// accepted before it, if there is one, and listed last.
pub open spec fn with_room(d: Dungeon, room: Rect, horizontal_first: bool) -> Dungeon {
    let carved = carve_room(d.tiles, room);
    Dungeon {
        rooms: d.rooms.push(room),
        tiles: if d.rooms.len() == 0 {
            carved
        } else {
            connect(carved, d.rooms.last().midpoint(), room.midpoint(), horizontal_first)
        },
    }
}

/// The dungeon after one attempt: a candidate that overlaps an accepted
/// room is dropped and leaves the dungeon as it was.
pub open spec fn attempt(d: Dungeon, roll: RoomRoll) -> Dungeon {
    if fits(d.rooms, roll.candidate()) {
        with_room(d, roll.candidate(), roll.coin == 1)
    } else {
        d
    }
}

/// The dungeon that a sequence of attempts builds out of solid rock.
pub open spec fn generate(rolls: Seq<RoomRoll>) -> Dungeon
    decreases rolls.len(),
{
    if rolls.len() == 0 {
        Dungeon { rooms: Seq::empty(), tiles: Seq::new(4000, |i: int| TileType::Wall) }
    } else {
        attempt(generate(rolls.drop_last()), rolls.last())
    }
}

/// Every roll of the sequence is valid.
pub open spec fn all_valid(rolls: Seq<RoomRoll>) -> bool {
    forall|i: int| 0 <= i < rolls.len() ==> (#[trigger] rolls[i]).valid()
}

/// Whether `room` overlaps none of `rooms`.
pub fn room_fits(rooms: &Vec<Rect>, room: &Rect) -> (ok: bool)
    ensures
        ok == fits(rooms@, *room),
{
    let mut ok = true;
    let mut i: usize = 0;
    while i < rooms.len()
        invariant
            i <= rooms.len(),
            ok == fits(rooms@.take(i as int), *room),
        decreases rooms.len() - i,
    {
        if room.intersect(&rooms[i]) {
            ok = false;
        }
        proof {
            let before = rooms@.take(i as int);
            let after = rooms@.take(i + 1);
            assert(after[i as int] == rooms@[i as int]);
            assert(forall|k: int| 0 <= k < i ==> before[k] == after[k]);
        }
        i += 1;
    }
    assert(rooms@.take(rooms.len() as int) =~= rooms@);
    ok
}

/// Digs an L-shaped corridor from `from` to `to`, each a column and a row.
pub fn connect_cells(
    map: &mut Vec<TileType>,
    from: (i32, i32),
    to: (i32, i32),
    horizontal_first: bool,
)
    requires
        is_grid(old(map)@),
    ensures
        final(map)@ == connect(
            old(map)@,
            (from.0 as int, from.1 as int),
            (to.0 as int, to.1 as int),
            horizontal_first,
        ),
{
    if horizontal_first {
        apply_horizontal_tunnel(map, from.0, to.0, from.1);
        apply_vertical_tunnel(map, from.1, to.1, to.0);
    } else {
        apply_vertical_tunnel(map, from.1, to.1, from.0);
        apply_horizontal_tunnel(map, from.0, to.0, to.1);
    }
}

/// Accepts `room`: carves it, joins its center to that of the room accepted
/// before it, and lists it.
pub fn add_room(rooms: &mut Vec<Rect>, map: &mut Vec<TileType>, room: Rect, horizontal_first: bool)
    requires
        is_grid(old(map)@),
        room_in_grid(room),
    ensures
        (Dungeon { rooms: final(rooms)@, tiles: final(map)@ }) == with_room(
            Dungeon { rooms: old(rooms)@, tiles: old(map)@ },
            room,
            horizontal_first,
        ),
{
    apply_room_to_map(&room, map);
    if !rooms.is_empty() {
        let new_center = room.center();
        let prev_center = rooms[rooms.len() - 1].center();
        connect_cells(map, prev_center, new_center, horizontal_first);
    }
    rooms.push(room);
}

/// The rooms and the tiles that the attempts in `rolls` build, in order,
/// out of solid rock.
pub fn rooms_and_corridors_from(rolls: &Vec<RoomRoll>) -> (res: (Vec<Rect>, Vec<TileType>))
    requires
        all_valid(rolls@),
    ensures
        res.0@ == generate(rolls@).rooms,
        res.1@ == generate(rolls@).tiles,
{
    let mut map = filled_map(TileType::Wall);
    let mut rooms: Vec<Rect> = Vec::new();
    let mut i: usize = 0;
    while i < rolls.len()
        invariant
            i <= rolls.len(),
            all_valid(rolls@),
            is_grid(map@),
            (Dungeon { rooms: rooms@, tiles: map@ }) == generate(rolls@.take(i as int)),
        decreases rolls.len() - i,
    {
        let roll = rolls[i];
        let new_room = roll.room();
        proof {
            assert(rolls@.take(i + 1).drop_last() =~= rolls@.take(i as int));
            assert(rolls@.take(i + 1).last() == roll);
        }
        if room_fits(&rooms, &new_room) {
            add_room(&mut rooms, &mut map, new_room, roll.coin == 1);
        }
        i += 1;
    }
    assert(rolls@.take(rolls.len() as int) =~= rolls@);
    (rooms, map)
}

/// A room as the generator draws it: at least six wide and six high, and
/// clear of the last column and the last row of the grid.
pub open spec fn drawn_room(room: Rect) -> bool {
    &&& 0 <= room.x1
    &&& room.x1 + 6 <= room.x2 <= 78
    &&& 0 <= room.y1
    &&& room.y1 + 6 <= room.y2 <= 48
}

/// No two of the rooms overlap.
pub open spec fn rooms_apart(rooms: Seq<Rect>) -> bool {
    forall|i: int, j: int|
        #![trigger rooms[i], rooms[j]]
        0 <= i < rooms.len() && 0 <= j < rooms.len() && i != j ==> !rooms[i].overlaps(&rooms[j])
}

/// Every cell of every room is floor.
pub open spec fn rooms_are_floor(d: Dungeon) -> bool {
    forall|k: int, x: int, y: int|
        0 <= k < d.rooms.len() && #[trigger] in_room(d.rooms[k], x, y) ==> d.tiles[cell_index(x, y)]
            == TileType::Floor
}

/// What holds of every dungeon that valid rolls build: the tiles are a
/// whole grid with walls all around it, and the rooms are rooms as the
/// generator draws them, apart from each other, and floor throughout.
pub open spec fn sound(d: Dungeon) -> bool {
    &&& is_grid(d.tiles)
    &&& walled_in(d.tiles)
    &&& forall|k: int| 0 <= k < d.rooms.len() ==> drawn_room(#[trigger] d.rooms[k])
    &&& rooms_apart(d.rooms)
    &&& rooms_are_floor(d)
}

/// The room of a valid roll is a room as the generator draws it, its
/// center is one of its own cells, and it lies in the grid.
pub proof fn lemma_valid_roll_room(roll: RoomRoll)
    requires
        roll.valid(),
    ensures
        drawn_room(roll.candidate()),
        room_in_grid(roll.candidate()),
        in_room(roll.candidate(), roll.candidate().midpoint().0, roll.candidate().midpoint().1),
{
}

/// Carving a room, a tunnel or a corridor never turns floor into wall.
pub proof fn lemma_carving_keeps_floor(
    tiles: Seq<TileType>,
    room: Rect,
    from: (int, int),
    to: (int, int),
    horizontal_first: bool,
    i: int,
)
    requires
        0 <= i < tiles.len(),
        tiles[i] == TileType::Floor,
    ensures
        carve_room(tiles, room)[i] == TileType::Floor,
        carve_horizontal(tiles, from.0, to.0, from.1)[i] == TileType::Floor,
        carve_vertical(tiles, from.1, to.1, from.0)[i] == TileType::Floor,
        connect(tiles, from, to, horizontal_first)[i] == TileType::Floor,
{
}

/// A tunnel between two cells off the outermost ring leaves that ring as it
/// is: along row `c` from column `a` to column `b`, or along column `c`
/// from row `a` to row `b`.
pub proof fn lemma_tunnel_keeps_border(
    tiles: Seq<TileType>,
    a: int,
    b: int,
    c: int,
    x: int,
    y: int,
)
    requires
        is_grid(tiles),
        on_border(x, y),
    ensures
        1 <= a <= 78 && 1 <= b <= 78 && 1 <= c <= 48 ==> carve_horizontal(tiles, a, b, c)[cell_index(
            x,
            y,
        )] == tiles[cell_index(x, y)],
        1 <= a <= 48 && 1 <= b <= 48 && 1 <= c <= 78 ==> carve_vertical(tiles, a, b, c)[cell_index(
            x,
            y,
        )] == tiles[cell_index(x, y)],
{
    let i = cell_index(x, y);
    if 1 <= a <= 78 && 1 <= b <= 78 && 1 <= c <= 48 && in_horizontal_run(a, b, c, i) {
        assert(i - c * 80 == x + (y - c) * 80);
        assert(y == c);
    }
    if 1 <= a <= 48 && 1 <= b <= 48 && 1 <= c <= 78 && in_vertical_run(a, b, c, i) {
        let r = (i - c) / 80;
        assert(i - c == r * 80);
        assert(x - c == (r - y) * 80);
        assert(r == y);
    }
}

/// A corridor between two cells off the outermost ring leaves that ring as
/// it is.
pub proof fn lemma_corridor_keeps_border(
    tiles: Seq<TileType>,
    from: (int, int),
    to: (int, int),
    horizontal_first: bool,
    x: int,
    y: int,
)
    requires
        is_grid(tiles),
        1 <= from.0 <= 78 && 1 <= from.1 <= 48,
        1 <= to.0 <= 78 && 1 <= to.1 <= 48,
        on_border(x, y),
    ensures
        connect(tiles, from, to, horizontal_first)[cell_index(x, y)] == tiles[cell_index(x, y)],
{
    if horizontal_first {
        let first = carve_horizontal(tiles, from.0, to.0, from.1);
        lemma_tunnel_keeps_border(tiles, from.0, to.0, from.1, x, y);
        lemma_tunnel_keeps_border(first, from.1, to.1, to.0, x, y);
    } else {
        let first = carve_vertical(tiles, from.1, to.1, from.0);
        lemma_tunnel_keeps_border(tiles, from.1, to.1, from.0, x, y);
        lemma_tunnel_keeps_border(first, from.0, to.0, to.1, x, y);
    }
}

/// An attempt with a valid roll keeps a sound dungeon sound.
pub proof fn lemma_attempt_keeps_sound(d: Dungeon, roll: RoomRoll)
    requires
        sound(d),
        roll.valid(),
    ensures
        sound(attempt(d, roll)),
{
    let room = roll.candidate();
    let after = attempt(d, roll);
    lemma_valid_roll_room(roll);
    if fits(d.rooms, room) {
        let carved = carve_room(d.tiles, room);
        assert forall|k: int| 0 <= k < after.rooms.len() implies drawn_room(
            #[trigger] after.rooms[k],
        ) by {
            if k < d.rooms.len() {
                assert(after.rooms[k] == d.rooms[k]);
            }
        }
        assert(rooms_apart(after.rooms)) by {
            assert forall|i: int, j: int|
                #![trigger after.rooms[i], after.rooms[j]]
                0 <= i < after.rooms.len() && 0 <= j < after.rooms.len() && i
                    != j implies !after.rooms[i].overlaps(&after.rooms[j]) by {
                if i < d.rooms.len() && j < d.rooms.len() {
                    assert(after.rooms[i] == d.rooms[i]);
                    assert(after.rooms[j] == d.rooms[j]);
                } else if i < d.rooms.len() {
                    assert(!room.overlaps(&d.rooms[i]));
                } else {
                    assert(!room.overlaps(&d.rooms[j]));
                }
            }
        }
        assert(walled_in(after.tiles)) by {
            assert forall|x: int, y: int| #[trigger] on_border(x, y) implies after.tiles[cell_index(
                x,
                y,
            )] == TileType::Wall by {
                let i = cell_index(x, y);
                assert(i % 80 == x && i / 80 == y);
                assert(d.tiles[i] == TileType::Wall);
                assert(carved[i] == TileType::Wall);
                if d.rooms.len() > 0 {
                    assert(drawn_room(d.rooms.last()));
                    lemma_corridor_keeps_border(
                        carved,
                        d.rooms.last().midpoint(),
                        room.midpoint(),
                        roll.coin == 1,
                        x,
                        y,
                    );
                }
            }
        }
        assert(rooms_are_floor(after)) by {
            assert forall|k: int, x: int, y: int|
                0 <= k < after.rooms.len() && #[trigger] in_room(
                    after.rooms[k],
                    x,
                    y,
                ) implies after.tiles[cell_index(x, y)] == TileType::Floor by {
                let i = cell_index(x, y);
                assert(drawn_room(after.rooms[k]));
                assert(i % 80 == x && i / 80 == y);
                assert(0 <= i < 4000);
                if k < d.rooms.len() {
                    assert(after.rooms[k] == d.rooms[k]);
                    assert(in_room(d.rooms[k], x, y));
                    assert(d.tiles[i] == TileType::Floor);
                }
                assert(carved[i] == TileType::Floor);
                if d.rooms.len() > 0 {
                    lemma_carving_keeps_floor(
                        carved,
                        room,
                        d.rooms.last().midpoint(),
                        room.midpoint(),
                        roll.coin == 1,
                        i,
                    );
                }
            }
        }
    }
}

/// Valid rolls build a sound dungeon, with no more rooms than rolls and,
/// where there is a roll at all, with at least one room.
pub proof fn lemma_generate_sound(rolls: Seq<RoomRoll>)
    requires
        all_valid(rolls),
    ensures
        sound(generate(rolls)),
        generate(rolls).rooms.len() <= rolls.len(),
        rolls.len() > 0 ==> generate(rolls).rooms.len() > 0,
    decreases rolls.len(),
{
    if rolls.len() > 0 {
        lemma_generate_sound(rolls.drop_last());
        lemma_attempt_keeps_sound(generate(rolls.drop_last()), rolls.last());
    }
}

/// No two rooms of a generated dungeon overlap, whatever was rolled.
pub proof fn lemma_rooms_never_overlap(rolls: Seq<RoomRoll>, i: int, j: int)
    requires
        0 <= i < generate(rolls).rooms.len(),
        0 <= j < generate(rolls).rooms.len(),
        i != j,
    ensures
        !generate(rolls).rooms[i].overlaps(&generate(rolls).rooms[j]),
    decreases rolls.len(),
{
    if rolls.len() > 0 {
        let d = generate(rolls.drop_last());
        let room = rolls.last().candidate();
        if fits(d.rooms, room) {
            if i < d.rooms.len() && j < d.rooms.len() {
                lemma_rooms_never_overlap(rolls.drop_last(), i, j);
            } else if i < d.rooms.len() {
                assert(!room.overlaps(&d.rooms[i]));
            } else {
                assert(!room.overlaps(&d.rooms[j]));
            }
        } else {
            lemma_rooms_never_overlap(rolls.drop_last(), i, j);
        }
    }
}

/// The outermost ring of a dungeon generated from valid rolls is wall: the
/// first and the last row, and the first and the last column.
pub proof fn lemma_border_is_wall(rolls: Seq<RoomRoll>, x: int, y: int)
    requires
        all_valid(rolls),
        on_border(x, y),
    ensures
        generate(rolls).tiles[cell_index(x, y)] == TileType::Wall,
{
    lemma_generate_sound(rolls);
}

/// The center of the first room of a dungeon generated from valid rolls
/// is a floor tile of the grid: the player can start there.
pub proof fn lemma_first_center_is_floor(rolls: Seq<RoomRoll>)
    requires
        all_valid(rolls),
        rolls.len() > 0,
    ensures
        generate(rolls).rooms.len() > 0,
        in_bounds(generate(rolls).rooms[0].midpoint().0, generate(rolls).rooms[0].midpoint().1),
        generate(rolls).tiles[cell_index(
            generate(rolls).rooms[0].midpoint().0,
            generate(rolls).rooms[0].midpoint().1,
        )] == TileType::Floor,
{
    lemma_generate_sound(rolls);
    let d = generate(rolls);
    let room = d.rooms[0];
    assert(drawn_room(room));
    assert(in_room(room, room.midpoint().0, room.midpoint().1));
}

/// A further attempt leaves every floor tile floor.
pub proof fn lemma_floor_stays(d: Dungeon, roll: RoomRoll, i: int)
    requires
        0 <= i < d.tiles.len(),
        d.tiles[i] == TileType::Floor,
    ensures
        attempt(d, roll).tiles[i] == TileType::Floor,
{
    let room = roll.candidate();
    if fits(d.rooms, room) && d.rooms.len() > 0 {
        lemma_carving_keeps_floor(
            carve_room(d.tiles, room),
            room,
            d.rooms.last().midpoint(),
            room.midpoint(),
            roll.coin == 1,
            i,
        );
    }
}

} // verus!
