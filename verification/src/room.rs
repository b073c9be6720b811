//! Rectangular room regions: intersection testing, center points, stamping
//! floor tiles and carving straight tunnels into a tile grid.

use vstd::prelude::*;
use crate::matrix::Matrix;
use crate::rng::{gen_range_i32, new_thread_rng};
use crate::tile::TileType;

verus! {

/// Smallest room extent drawn by `generate_rooms`.
pub const MIN_SIZE: i32 = 3;

/// Largest room extent drawn by `generate_rooms`.
pub const MAX_SIZE: i32 = 4;

/// An axis-aligned rectangular region with origin (i, j) and extents
/// (row, column).
///
/// The extents are maximum offsets: applying a room to a grid stamps Floor
/// into every cell of the inclusive bounding box [i, i+row] × [j, j+column],
/// which spans row+1 by column+1 cells.
#[derive(Clone, Copy, Debug, PartialEq, Eq, Structural)]
pub struct Room {
    pub i: i32,
    pub j: i32,
    pub row: i32,
    pub column: i32,
}

/// Two rooms intersect exactly when their inclusive bounding boxes share at
/// least one cell. Two rooms whose boxes sit side by side without sharing a
/// cell — even touching edge to edge — do not intersect.
pub open spec fn spec_intersects(a: Room, b: Room) -> bool {
    &&& b.i <= a.i + a.row
    &&& a.i <= b.i + b.row
    &&& b.j <= a.j + a.column
    &&& a.j <= b.j + b.column
}

/// Whether grid cell (a, b) lies inside the room's inclusive bounding box.
pub open spec fn in_room(r: Room, a: int, b: int) -> bool {
    r.i <= a <= r.i + r.row && r.j <= b <= r.j + r.column
}

/// The smaller of two integers.
pub open spec fn lo(a: int, b: int) -> int {
    if a <= b {
        a
    } else {
        b
    }
}

/// The larger of two integers.
pub open spec fn hi(a: int, b: int) -> int {
    if a <= b {
        b
    } else {
        a
    }
}

impl Room {
    pub fn new(i: i32, j: i32, row: i32, column: i32) -> (r: Room)
        ensures
            r == (Room { i, j, row, column }),
    {
        Room { i, j, row, column }
    }

    /// Whether the two rooms' inclusive bounding boxes share a cell.
    pub fn intersect(&self, other: &Room) -> (b: bool)
        ensures
            b == spec_intersects(*self, *other),
    {
        (other.i as i64) <= (self.i as i64) + (self.row as i64)
            && (self.i as i64) <= (other.i as i64) + (other.row as i64)
            && (other.j as i64) <= (self.j as i64) + (self.column as i64)
            && (self.j as i64) <= (other.j as i64) + (other.column as i64)
    }

    /// The room's center cell, biased toward the origin on odd extents.
    pub fn center(&self) -> (c: (i32, i32))
        requires
            0 <= self.row,
            0 <= self.column,
            self.i + self.row / 2 <= i32::MAX,
            self.j + self.column / 2 <= i32::MAX,
        ensures
            c.0 == self.i + self.row / 2,
            c.1 == self.j + self.column / 2,
    {
        (self.i + self.row / 2, self.j + self.column / 2)
    }
}

/// Room intersection is symmetric: A intersects B exactly when B intersects A.
pub proof fn lemma_intersect_symmetric(a: Room, b: Room)
    ensures
        spec_intersects(a, b) == spec_intersects(b, a),
{
}

/// Stamps Floor into every cell of the room's inclusive bounding box,
/// leaving every cell outside the box unchanged.
pub fn apply_room_to_map(layer: &mut Matrix<TileType>, room: &Room)
    requires
        old(layer).wf(),
        0 <= room.i,
        0 <= room.j,
        0 <= room.row,
        0 <= room.column,
        room.i + room.row < old(layer).row,
        room.j + room.column < old(layer).column,
        room.i + room.row <= i32::MAX,
        room.j + room.column <= i32::MAX,
    ensures
        final(layer).wf(),
        final(layer).row == old(layer).row,
        final(layer).column == old(layer).column,
        forall|a: int, b: int|
            old(layer).in_bounds(a, b)
                ==> final(layer).cell(a, b) == if in_room(*room, a, b) {
                    TileType::Floor
                } else {
                    old(layer).cell(a, b)
                },
{
    let i0 = room.i as usize;
    let i1 = (room.i + room.row) as usize;
    let j0 = room.j as usize;
    let j1 = (room.j + room.column) as usize;
    for a in i0..(i1 + 1)
        invariant
            layer.wf(),
            layer.row == old(layer).row,
            layer.column == old(layer).column,
            i0 == room.i as int,
            i1 == room.i + room.row,
            j0 == room.j as int,
            j1 == room.j + room.column,
            i0 <= i1 < layer.row,
            j0 <= j1 < layer.column,
            i0 <= a <= i1 + 1,
            forall|x: int, y: int| #![trigger layer.cell(x, y)]
                old(layer).in_bounds(x, y)
                    ==> layer.cell(x, y) == if in_room(*room, x, y) && x < a {
                        TileType::Floor
                    } else {
                        old(layer).cell(x, y)
                    },
    {
        for b in j0..(j1 + 1)
            invariant
                layer.wf(),
                layer.row == old(layer).row,
                layer.column == old(layer).column,
                i0 == room.i as int,
                i1 == room.i + room.row,
                j0 == room.j as int,
                j1 == room.j + room.column,
                i0 <= i1 < layer.row,
                j0 <= j1 < layer.column,
                i0 <= a <= i1,
                j0 <= b <= j1 + 1,
                forall|x: int, y: int| #![trigger layer.cell(x, y)]
                    old(layer).in_bounds(x, y)
                        ==> layer.cell(x, y) == if in_room(*room, x, y) && (x < a || (x == a && y
                            < b)) {
                            TileType::Floor
                        } else {
                            old(layer).cell(x, y)
                        },
        {
            layer.set(a, b, TileType::Floor);
        }
    }
}

/// The room's extents lie in [min_size, max_size] and its inclusive
/// bounding box keeps a one-cell margin inside the row × column bounds.
pub open spec fn room_in_margin(r: Room, row: int, column: int, min_size: int, max_size: int) -> bool {
    &&& min_size <= r.row <= max_size
    &&& min_size <= r.column <= max_size
    &&& 1 <= r.i && r.i + r.row <= row - 2
    &&& 1 <= r.j && r.j + r.column <= column - 2
}

/// Draws a room with extents uniform in [min_size, max_size] per axis and an
/// origin placed so that the inclusive bounding box keeps a one-cell margin
/// inside the layer bounds.
fn get_random_room(
    rng: &mut rand::rngs::ThreadRng,
    layer_row: i32,
    layer_column: i32,
    min_size: i32,
    max_size: i32,
) -> (r: Room)
    requires
        0 < min_size <= max_size,
        max_size < i32::MAX,
        max_size + 2 < layer_row,
        max_size + 2 < layer_column,
    ensures
        room_in_margin(r, layer_row as int, layer_column as int, min_size as int, max_size as int),
{
    let room_row = gen_range_i32(rng, min_size, max_size + 1);
    let room_column = gen_range_i32(rng, min_size, max_size + 1);
    let i = gen_range_i32(rng, 2, layer_row - room_row) - 1;
    let j = gen_range_i32(rng, 2, layer_column - room_column) - 1;
    Room::new(i, j, room_row, room_column)
}

/// Whether the candidate intersects any already-accepted room.
fn intersects_any(rooms: &Vec<Room>, candidate: &Room) -> (b: bool)
    ensures
        b == exists|k: int|
            0 <= k < rooms@.len() && spec_intersects(*candidate, #[trigger] rooms@[k]),
{
    for k in 0..rooms.len()
        invariant
            forall|m: int| 0 <= m < k ==> !spec_intersects(*candidate, #[trigger] rooms@[m]),
    {
        if candidate.intersect(&rooms[k]) {
            proof {
                assert(spec_intersects(*candidate, rooms@[k as int]));
            }
            return true;
        }
    }
    false
}

/// Rejection-samples up to `room_amount * 4` candidate rooms, accepting each
/// candidate that intersects no previously accepted room.
///
/// Accepted rooms come back in acceptance order, each inside the bounds
/// with a one-cell margin, and pairwise non-intersecting. The list may hold
/// fewer than `room_amount` rooms — a degenerate level is a legal output —
/// and the bounded attempt count means the sampling always terminates.
pub fn generate_rooms_bounded(
    row: usize,
    column: usize,
    room_amount: usize,
    min_size: i32,
    max_size: i32,
) -> (rooms: Vec<Room>)
    requires
        0 < min_size <= max_size,
        max_size < i32::MAX,
        max_size + 2 < row,
        max_size + 2 < column,
        row <= i32::MAX,
        column <= i32::MAX,
        room_amount * 4 <= usize::MAX,
    ensures
        rooms@.len() <= room_amount * 4,
        room_amount >= 1 ==> rooms@.len() >= 1,
        forall|k: int|
            0 <= k < rooms@.len()
                ==> room_in_margin(
                    #[trigger] rooms@[k],
                    row as int,
                    column as int,
                    min_size as int,
                    max_size as int,
                ),
        forall|k: int, l: int|
            0 <= k < l < rooms@.len()
                ==> !spec_intersects(rooms@[k], rooms@[l]) && !spec_intersects(
                    rooms@[l],
                    rooms@[k],
                ),
{
    let mut rooms: Vec<Room> = Vec::new();
    let mut rng = new_thread_rng();
    let budget: usize = room_amount * 4;
    for attempt in 0..budget
        invariant
            0 < min_size <= max_size,
            max_size < i32::MAX,
            max_size + 2 < row,
            max_size + 2 < column,
            row <= i32::MAX,
            column <= i32::MAX,
            rooms@.len() <= attempt,
            attempt >= 1 ==> rooms@.len() >= 1,
            forall|k: int|
                0 <= k < rooms@.len()
                    ==> room_in_margin(
                        #[trigger] rooms@[k],
                        row as int,
                        column as int,
                        min_size as int,
                        max_size as int,
                    ),
            forall|k: int, l: int|
                0 <= k < l < rooms@.len()
                    ==> !spec_intersects(rooms@[k], rooms@[l]) && !spec_intersects(
                        rooms@[l],
                        rooms@[k],
                    ),
    {
        let new_room = get_random_room(&mut rng, row as i32, column as i32, min_size, max_size);
        if !intersects_any(&rooms, &new_room) {
            proof {
                assert forall|k: int|
                    0 <= k < rooms@.len() implies !spec_intersects(
                    #[trigger] rooms@[k],
                    new_room,
                ) by {
                    lemma_intersect_symmetric(new_room, rooms@[k]);
                }
            }
            rooms.push(new_room);
        }
    }
    rooms
}

/// Generates rooms for a row × column layer with the default size bounds
/// [MIN_SIZE, MAX_SIZE].
pub fn generate_rooms(row: usize, column: usize, room_amount: usize) -> (rooms: Vec<Room>)
    requires
        MAX_SIZE + 2 < row,
        MAX_SIZE + 2 < column,
        row <= i32::MAX,
        column <= i32::MAX,
        room_amount * 4 <= usize::MAX,
    ensures
        rooms@.len() <= room_amount * 4,
        room_amount >= 1 ==> rooms@.len() >= 1,
        forall|k: int|
            0 <= k < rooms@.len()
                ==> room_in_margin(
                    #[trigger] rooms@[k],
                    row as int,
                    column as int,
                    MIN_SIZE as int,
                    MAX_SIZE as int,
                ),
        forall|k: int, l: int|
            0 <= k < l < rooms@.len()
                ==> !spec_intersects(rooms@[k], rooms@[l]) && !spec_intersects(
                    rooms@[l],
                    rooms@[k],
                ),
{
    generate_rooms_bounded(row, column, room_amount, MIN_SIZE, MAX_SIZE)
}

/// Why a room-generation configuration is rejected before sampling begins.
#[derive(Clone, Copy, Debug, PartialEq, Eq, Structural)]
pub enum ConfigError {
    /// No rooms were requested.
    ZeroRoomCount,
    /// The size bounds are not a non-empty range of positive extents below
    /// the coordinate limit.
    BadSizeRange,
    /// The grid cannot hold a maximum-size room together with its one-cell
    /// margin.
    GridTooSmall,
    /// A grid dimension exceeds the i32 coordinate space of rooms.
    GridTooLarge,
    /// The sampling budget of four attempts per requested room cannot be
    /// computed.
    TooManyRooms,
}

/// Validates a room-generation configuration and, when it is sound, runs
/// the bounded rejection sampling. Each degenerate configuration is
/// rejected with the error naming the first failed check, so the sampling
/// loop itself never runs on bounds it could not satisfy.
pub fn try_generate_rooms(
    row: usize,
    column: usize,
    room_amount: usize,
    min_size: i32,
    max_size: i32,
) -> (r: Result<Vec<Room>, ConfigError>)
    ensures
        r is Ok <==> {
            &&& room_amount >= 1
            &&& 0 < min_size <= max_size < i32::MAX
            &&& max_size + 2 < row && max_size + 2 < column
            &&& row <= i32::MAX && column <= i32::MAX
            &&& room_amount * 4 <= usize::MAX
        },
        r == Err::<Vec<Room>, ConfigError>(ConfigError::ZeroRoomCount) <==> room_amount == 0,
        r == Err::<Vec<Room>, ConfigError>(ConfigError::BadSizeRange) <==> room_amount >= 1 && !(0
            < min_size <= max_size < i32::MAX),
        r == Err::<Vec<Room>, ConfigError>(ConfigError::GridTooLarge) <==> room_amount >= 1 && 0
            < min_size <= max_size < i32::MAX && (row > i32::MAX || column > i32::MAX),
        r == Err::<Vec<Room>, ConfigError>(ConfigError::GridTooSmall) <==> room_amount >= 1 && 0
            < min_size <= max_size < i32::MAX && row <= i32::MAX && column <= i32::MAX && !(
        max_size + 2 < row && max_size + 2 < column),
        r == Err::<Vec<Room>, ConfigError>(ConfigError::TooManyRooms) <==> room_amount >= 1 && 0
            < min_size <= max_size < i32::MAX && row <= i32::MAX && column <= i32::MAX && max_size
            + 2 < row && max_size + 2 < column && room_amount * 4 > usize::MAX,
        r matches Ok(rooms) ==> {
            &&& rooms@.len() <= room_amount * 4
            &&& rooms@.len() >= 1
            &&& forall|k: int|
                0 <= k < rooms@.len()
                    ==> room_in_margin(
                        #[trigger] rooms@[k],
                        row as int,
                        column as int,
                        min_size as int,
                        max_size as int,
                    )
            &&& forall|k: int, l: int|
                0 <= k < l < rooms@.len()
                    ==> !spec_intersects(rooms@[k], rooms@[l]) && !spec_intersects(
                        rooms@[l],
                        rooms@[k],
                    )
        },
{
    if room_amount == 0 {
        Err(ConfigError::ZeroRoomCount)
    } else if !(0 < min_size && min_size <= max_size && max_size < i32::MAX) {
        Err(ConfigError::BadSizeRange)
    } else if row > i32::MAX as usize || column > i32::MAX as usize {
        Err(ConfigError::GridTooLarge)
    } else if !((max_size as usize) + 2 < row && (max_size as usize) + 2 < column) {
        Err(ConfigError::GridTooSmall)
    } else if room_amount > usize::MAX / 4 {
        Err(ConfigError::TooManyRooms)
    } else {
        Ok(generate_rooms_bounded(row, column, room_amount, min_size, max_size))
    }
}

/// Carves a straight tunnel along column j between rows i1 and i2
/// (inclusive, in either order): every Empty cell on the segment becomes
/// Path; Floor and every other already-placed tile is left unchanged.
pub fn apply_row_tunnel(layer: &mut Matrix<TileType>, i1: i32, i2: i32, j: i32)
    requires
        old(layer).wf(),
        0 <= i1 < old(layer).row,
        0 <= i2 < old(layer).row,
        0 <= j < old(layer).column,
    ensures
        final(layer).wf(),
        final(layer).row == old(layer).row,
        final(layer).column == old(layer).column,
        forall|x: int, y: int|
            old(layer).in_bounds(x, y)
                ==> final(layer).cell(x, y) == if y == j && lo(i1 as int, i2 as int) <= x <= hi(
                    i1 as int,
                    i2 as int,
                ) && old(layer).cell(x, y) is Empty {
                    TileType::Path
                } else {
                    old(layer).cell(x, y)
                },
{
    let s: usize = if i1 <= i2 {
        i1 as usize
    } else {
        i2 as usize
    };
    let e: usize = if i1 <= i2 {
        i2 as usize
    } else {
        i1 as usize
    };
    let jc = j as usize;
    for x in s..(e + 1)
        invariant
            layer.wf(),
            layer.row == old(layer).row,
            layer.column == old(layer).column,
            s == lo(i1 as int, i2 as int),
            e == hi(i1 as int, i2 as int),
            e < layer.row,
            jc == j as int,
            jc < layer.column,
            s <= x <= e + 1,
            forall|a: int, b: int|
                old(layer).in_bounds(a, b)
                    ==> layer.cell(a, b) == if b == j && s <= a < x && old(layer).cell(
                        a,
                        b,
                    ) is Empty {
                        TileType::Path
                    } else {
                        old(layer).cell(a, b)
                    },
    {
        if layer.get(x, jc) == TileType::Empty {
            layer.set(x, jc, TileType::Path);
        }
    }
}

/// Carves a straight tunnel along row i between columns j1 and j2
/// (inclusive, in either order): every Empty cell on the segment becomes
/// Path; Floor and every other already-placed tile is left unchanged.
pub fn apply_column_tunnel(layer: &mut Matrix<TileType>, i: i32, j1: i32, j2: i32)
    requires
        old(layer).wf(),
        0 <= j1 < old(layer).column,
        0 <= j2 < old(layer).column,
        0 <= i < old(layer).row,
    ensures
        final(layer).wf(),
        final(layer).row == old(layer).row,
        final(layer).column == old(layer).column,
        forall|x: int, y: int|
            old(layer).in_bounds(x, y)
                ==> final(layer).cell(x, y) == if x == i && lo(j1 as int, j2 as int) <= y <= hi(
                    j1 as int,
                    j2 as int,
                ) && old(layer).cell(x, y) is Empty {
                    TileType::Path
                } else {
                    old(layer).cell(x, y)
                },
{
    let s: usize = if j1 <= j2 {
        j1 as usize
    } else {
        j2 as usize
    };
    let e: usize = if j1 <= j2 {
        j2 as usize
    } else {
        j1 as usize
    };
    let ic = i as usize;
    for y in s..(e + 1)
        invariant
            layer.wf(),
            layer.row == old(layer).row,
            layer.column == old(layer).column,
            s == lo(j1 as int, j2 as int),
            e == hi(j1 as int, j2 as int),
            e < layer.column,
            ic == i as int,
            ic < layer.row,
            s <= y <= e + 1,
            forall|a: int, b: int|
                old(layer).in_bounds(a, b)
                    ==> layer.cell(a, b) == if a == i && s <= b < y && old(layer).cell(
                        a,
                        b,
                    ) is Empty {
                        TileType::Path
                    } else {
                        old(layer).cell(a, b)
                    },
    {
        if layer.get(ic, y) == TileType::Empty {
            layer.set(ic, y, TileType::Path);
        }
    }
}

} // verus!
