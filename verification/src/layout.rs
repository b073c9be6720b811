//! The level orchestrator: builds an empty grid, places rooms, stamps
//! their floors, carves L-shaped tunnels between consecutive room centers
//! and runs the tile classifier.

use vstd::prelude::*;
use crate::classify::{classify, classify_grid, gv_in_bounds, is_floor_at, is_path_at, is_terrain};
use crate::matrix::Matrix;
use crate::rng::{gen_range_i32, new_thread_rng};
use crate::room::{
    apply_column_tunnel, apply_room_to_map, apply_row_tunnel, generate_rooms, hi, in_room, lo,
    room_in_margin, spec_intersects, Room, MAX_SIZE, MIN_SIZE,
};
use crate::tile::TileType;

verus! {

/// Grid width of the default dungeon layer.
pub const DUNGEON_WIDE: usize = 20;

/// Grid height of the default dungeon layer.
pub const DUNGEON_HEIGHT: usize = 10;

/// Room count requested for the default dungeon layer.
pub const MAX_ROOMS: usize = 4;

/// Splits a flat row-major cell index into (row, column) grid coordinates
/// for a grid DUNGEON_WIDE cells wide.
pub fn idx_xy(idx: usize) -> (r: (i32, i32))
    requires
        idx <= i32::MAX,
    ensures
        r.0 == idx as int / (DUNGEON_WIDE as int),
        r.1 == idx as int % (DUNGEON_WIDE as int),
{
    ((idx as i32) / (DUNGEON_WIDE as i32), (idx as i32) % (DUNGEON_WIDE as i32))
}

/// The cell (x, y) is in bounds and holds Floor or Path.
pub open spec fn is_fp_at(s: Seq<Seq<TileType>>, x: int, y: int) -> bool {
    is_floor_at(s, x, y) || is_path_at(s, x, y)
}

/// Every cell of the straight segment along column j between rows a and b
/// (inclusive, either order) holds Floor or Path.
pub open spec fn row_seg_fp(s: Seq<Seq<TileType>>, a: int, b: int, j: int) -> bool {
    forall|x: int| lo(a, b) <= x <= hi(a, b) ==> #[trigger] is_fp_at(s, x, j)
}

/// Every cell of the straight segment along row i between columns a and b
/// (inclusive, either order) holds Floor or Path.
pub open spec fn col_seg_fp(s: Seq<Seq<TileType>>, i: int, a: int, b: int) -> bool {
    forall|y: int| lo(a, b) <= y <= hi(a, b) ==> #[trigger] is_fp_at(s, i, y)
}

/// The two centers are joined by an L-shaped run of Floor and Path cells,
/// with the elbow at one of the two possible corners.
pub open spec fn l_connected(s: Seq<Seq<TileType>>, p: (int, int), q: (int, int)) -> bool {
    ||| row_seg_fp(s, p.0, q.0, p.1) && col_seg_fp(s, q.0, p.1, q.1)
    ||| col_seg_fp(s, p.0, p.1, q.1) && row_seg_fp(s, p.0, q.0, q.1)
}

/// The center cell of a room, biased toward the origin on odd extents.
pub open spec fn room_center(r: Room) -> (int, int) {
    (r.i + r.row / 2, r.j + r.column / 2)
}

/// Whether (x, y) lies in the bounding box of any of the rooms.
pub open spec fn in_any_room(rooms: Seq<Room>, x: int, y: int) -> bool {
    exists|k: int| 0 <= k < rooms.len() && in_room(#[trigger] rooms[k], x, y)
}

/// The stamped-and-carved grid that the classifier runs on: a row × column
/// grid of terrain cells whose Floor cells are exactly the accepted rooms'
/// bounding boxes, with each consecutive pair of room centers joined by an
/// L-shaped tunnel of Floor and Path cells.
pub open spec fn carved_grid_ok(
    mid: Seq<Seq<TileType>>,
    rooms: Seq<Room>,
    row: int,
    column: int,
) -> bool {
    &&& mid.len() == row
    &&& forall|i: int| 0 <= i < row ==> (#[trigger] mid[i]).len() == column
    &&& forall|x: int, y: int| gv_in_bounds(mid, x, y) ==> is_terrain(#[trigger] mid[x][y])
    &&& forall|x: int, y: int|
        gv_in_bounds(mid, x, y) ==> ((#[trigger] mid[x][y]) is Floor <==> in_any_room(rooms, x, y))
    &&& forall|k: int|
        1 <= k < rooms.len()
            ==> l_connected(mid, room_center(rooms[k - 1]), room_center(#[trigger] rooms[k]))
}

/// Floor/Path cells survive grid writes that only stamp Floor or carve
/// Path, so an L-shaped connection, once carved, stays connected.
proof fn lemma_l_connected_mono(
    s_old: Seq<Seq<TileType>>,
    s_new: Seq<Seq<TileType>>,
    p: (int, int),
    q: (int, int),
)
    requires
        forall|x: int, y: int| #[trigger] is_fp_at(s_old, x, y) ==> is_fp_at(s_new, x, y),
        l_connected(s_old, p, q),
    ensures
        l_connected(s_new, p, q),
{
    if row_seg_fp(s_old, p.0, q.0, p.1) && col_seg_fp(s_old, q.0, p.1, q.1) {
        assert forall|x: int| lo(p.0, q.0) <= x <= hi(p.0, q.0) implies #[trigger] is_fp_at(
            s_new,
            x,
            p.1,
        ) by {
            assert(is_fp_at(s_old, x, p.1));
        }
        assert forall|y: int| lo(p.1, q.1) <= y <= hi(p.1, q.1) implies #[trigger] is_fp_at(
            s_new,
            q.0,
            y,
        ) by {
            assert(is_fp_at(s_old, q.0, y));
        }
        assert(row_seg_fp(s_new, p.0, q.0, p.1) && col_seg_fp(s_new, q.0, p.1, q.1));
    } else {
        assert forall|y: int| lo(p.1, q.1) <= y <= hi(p.1, q.1) implies #[trigger] is_fp_at(
            s_new,
            p.0,
            y,
        ) by {
            assert(is_fp_at(s_old, p.0, y));
        }
        assert forall|x: int| lo(p.0, q.0) <= x <= hi(p.0, q.0) implies #[trigger] is_fp_at(
            s_new,
            x,
            q.1,
        ) by {
            assert(is_fp_at(s_old, x, q.1));
        }
        assert(col_seg_fp(s_new, p.0, p.1, q.1) && row_seg_fp(s_new, p.0, q.0, q.1));
    }
}

/// Carves an L-shaped tunnel of Path cells between the centers p and q,
/// with the bend chosen by `row_first`: row leg first through p's column,
/// or column leg first through p's row. Only Empty cells are overwritten —
/// once a cell is Floor it stays Floor.
fn connect_centers(layer: &mut Matrix<TileType>, p: (i32, i32), q: (i32, i32), row_first: bool)
    requires
        old(layer).wf(),
        0 <= p.0 < old(layer).row,
        0 <= q.0 < old(layer).row,
        0 <= p.1 < old(layer).column,
        0 <= q.1 < old(layer).column,
        forall|x: int, y: int|
            gv_in_bounds(old(layer)@, x, y) ==> is_terrain(#[trigger] old(layer)@[x][y]),
    ensures
        final(layer).wf(),
        final(layer).row == old(layer).row,
        final(layer).column == old(layer).column,
        forall|x: int, y: int|
            gv_in_bounds(old(layer)@, x, y) ==> #[trigger] final(layer)@[x][y] == old(
                layer,
            )@[x][y] || (old(layer)@[x][y] is Empty && final(layer)@[x][y] is Path),
        l_connected(final(layer)@, (p.0 as int, p.1 as int), (q.0 as int, q.1 as int)),
{
    let ghost g0 = layer@;
    if row_first {
        apply_row_tunnel(layer, p.0, q.0, p.1);
        let ghost g1 = layer@;
        proof {
            assert forall|x: int, y: int| gv_in_bounds(g0, x, y) implies (#[trigger] g1[x][y]
                == if y == p.1 && lo(p.0 as int, q.0 as int) <= x <= hi(p.0 as int, q.0 as int)
                && g0[x][y] is Empty {
                TileType::Path
            } else {
                g0[x][y]
            }) by {
                assert(g1[x][y] == layer.cell(x, y));
            }
        }
        apply_column_tunnel(layer, q.0, p.1, q.1);
        let ghost g2 = layer@;
        proof {
            assert forall|x: int, y: int| gv_in_bounds(g1, x, y) implies (#[trigger] g2[x][y]
                == if x == q.0 && lo(p.1 as int, q.1 as int) <= y <= hi(p.1 as int, q.1 as int)
                && g1[x][y] is Empty {
                TileType::Path
            } else {
                g1[x][y]
            }) by {
                assert(g2[x][y] == layer.cell(x, y));
            }
            assert forall|x: int|
                lo(p.0 as int, q.0 as int) <= x <= hi(p.0 as int, q.0 as int) implies #[trigger] is_fp_at(
                g2,
                x,
                p.1 as int,
            ) by {
                assert(is_terrain(g0[x][p.1 as int]));
                assert(gv_in_bounds(g1, x, p.1 as int));
            }
            assert forall|y: int|
                lo(p.1 as int, q.1 as int) <= y <= hi(p.1 as int, q.1 as int) implies #[trigger] is_fp_at(
                g2,
                q.0 as int,
                y,
            ) by {
                assert(is_terrain(g0[q.0 as int][y]));
                assert(gv_in_bounds(g1, q.0 as int, y));
            }
            assert(row_seg_fp(g2, p.0 as int, q.0 as int, p.1 as int));
            assert(col_seg_fp(g2, q.0 as int, p.1 as int, q.1 as int));
        }
    } else {
        apply_column_tunnel(layer, p.0, p.1, q.1);
        let ghost g1 = layer@;
        proof {
            assert forall|x: int, y: int| gv_in_bounds(g0, x, y) implies (#[trigger] g1[x][y]
                == if x == p.0 && lo(p.1 as int, q.1 as int) <= y <= hi(p.1 as int, q.1 as int)
                && g0[x][y] is Empty {
                TileType::Path
            } else {
                g0[x][y]
            }) by {
                assert(g1[x][y] == layer.cell(x, y));
            }
        }
        apply_row_tunnel(layer, p.0, q.0, q.1);
        let ghost g2 = layer@;
        proof {
            assert forall|x: int, y: int| gv_in_bounds(g1, x, y) implies (#[trigger] g2[x][y]
                == if y == q.1 && lo(p.0 as int, q.0 as int) <= x <= hi(p.0 as int, q.0 as int)
                && g1[x][y] is Empty {
                TileType::Path
            } else {
                g1[x][y]
            }) by {
                assert(g2[x][y] == layer.cell(x, y));
            }
            assert forall|y: int|
                lo(p.1 as int, q.1 as int) <= y <= hi(p.1 as int, q.1 as int) implies #[trigger] is_fp_at(
                g2,
                p.0 as int,
                y,
            ) by {
                assert(is_terrain(g0[p.0 as int][y]));
                assert(gv_in_bounds(g1, p.0 as int, y));
            }
            assert forall|x: int|
                lo(p.0 as int, q.0 as int) <= x <= hi(p.0 as int, q.0 as int) implies #[trigger] is_fp_at(
                g2,
                x,
                q.1 as int,
            ) by {
                assert(is_terrain(g0[x][q.1 as int]));
                assert(gv_in_bounds(g1, x, q.1 as int));
            }
            assert(col_seg_fp(g2, p.0 as int, p.1 as int, q.1 as int));
            assert(row_seg_fp(g2, p.0 as int, q.0 as int, q.1 as int));
        }
    }
}

/// A generated level layer: the classified tile grid together with the
/// accepted rooms, in acceptance order.
pub struct RoomLayer {
    pub layer: Matrix<TileType>,
    pub rooms: Vec<Room>,
}

impl RoomLayer {
    /// Generates a full level. The grid starts all Empty; accepted rooms
    /// are stamped as Floor; each room after the first is joined to its
    /// predecessor's center by an L-shaped tunnel whose bend is chosen by
    /// a coin flip; finally the five classification passes run.
    ///
    /// The resulting grid is exactly the classification of a
    /// stamped-and-carved grid (`carved_grid_ok`) built from the returned
    /// rooms, which are pairwise non-intersecting and lie inside the
    /// bounds with a one-cell margin.
    pub fn new(row: usize, column: usize, room_amount: usize) -> (r: RoomLayer)
        requires
            MAX_SIZE + 2 < row,
            MAX_SIZE + 2 < column,
            row <= i32::MAX,
            column <= i32::MAX,
            room_amount * 4 <= usize::MAX,
            row * column <= usize::MAX,
        ensures
            r.layer.wf(),
            r.layer.row == row,
            r.layer.column == column,
            r.rooms@.len() <= room_amount * 4,
            room_amount >= 1 ==> r.rooms@.len() >= 1,
            forall|k: int|
                0 <= k < r.rooms@.len()
                    ==> room_in_margin(
                        #[trigger] r.rooms@[k],
                        row as int,
                        column as int,
                        MIN_SIZE as int,
                        MAX_SIZE as int,
                    ),
            forall|k: int, l: int|
                0 <= k < l < r.rooms@.len()
                    ==> !spec_intersects(r.rooms@[k], r.rooms@[l]) && !spec_intersects(
                        r.rooms@[l],
                        r.rooms@[k],
                    ),
            exists|mid: Seq<Seq<TileType>>|
                #[trigger] carved_grid_ok(mid, r.rooms@, row as int, column as int) && r.layer@
                    == classify_grid(mid),
    {
        let rooms = generate_rooms(row, column, room_amount);
        let mut layer = Matrix::new(TileType::Empty, row, column);
        let mut rng = new_thread_rng();
        proof {
            assert forall|x: int, y: int| gv_in_bounds(layer@, x, y) implies is_terrain(
                #[trigger] layer@[x][y],
            ) && !(layer@[x][y] is Floor) by {
                assert(layer@[x][y] == layer.cell(x, y));
            }
        }
        for k in 0..rooms.len()
            invariant
                layer.wf(),
                layer.row == row,
                layer.column == column,
                MAX_SIZE + 2 < row,
                MAX_SIZE + 2 < column,
                row <= i32::MAX,
                column <= i32::MAX,
                k <= rooms@.len(),
                forall|m: int|
                    0 <= m < rooms@.len()
                        ==> room_in_margin(
                            #[trigger] rooms@[m],
                            row as int,
                            column as int,
                            MIN_SIZE as int,
                            MAX_SIZE as int,
                        ),
                forall|m: int, l: int|
                    0 <= m < l < rooms@.len()
                        ==> !spec_intersects(rooms@[m], rooms@[l]) && !spec_intersects(
                            rooms@[l],
                            rooms@[m],
                        ),
                forall|x: int, y: int|
                    gv_in_bounds(layer@, x, y) ==> is_terrain(#[trigger] layer@[x][y]),
                forall|x: int, y: int|
                    gv_in_bounds(layer@, x, y)
                        ==> ((#[trigger] layer@[x][y]) is Floor <==> exists|m: int|
                            0 <= m < k && in_room(#[trigger] rooms@[m], x, y)),
                forall|m: int|
                    1 <= m < k
                        ==> l_connected(
                            layer@,
                            room_center(rooms@[m - 1]),
                            room_center(#[trigger] rooms@[m]),
                        ),
        {
            let room = rooms[k];
            let ghost g0 = layer@;
            apply_room_to_map(&mut layer, &room);
            let ghost g1 = layer@;
            proof {
                assert forall|x: int, y: int| gv_in_bounds(g0, x, y) implies (#[trigger] g1[x][y]
                    == if in_room(room, x, y) {
                    TileType::Floor
                } else {
                    g0[x][y]
                }) by {
                    assert(g1[x][y] == layer.cell(x, y));
                }
                assert forall|x: int, y: int| #[trigger] is_fp_at(g0, x, y) implies is_fp_at(
                    g1,
                    x,
                    y,
                ) by {
                    assert(gv_in_bounds(g0, x, y));
                }
                assert forall|m: int| 1 <= m < k implies l_connected(
                    g1,
                    room_center(rooms@[m - 1]),
                    room_center(#[trigger] rooms@[m]),
                ) by {
                    lemma_l_connected_mono(
                        g0,
                        g1,
                        room_center(rooms@[m - 1]),
                        room_center(rooms@[m]),
                    );
                }
            }
            if k > 0 {
                let prev = rooms[k - 1].center();
                let cur = room.center();
                let coin = gen_range_i32(&mut rng, 1, 3);
                connect_centers(&mut layer, prev, cur, coin == 1);
                let ghost g2 = layer@;
                proof {
                    assert forall|x: int, y: int| #[trigger] is_fp_at(g1, x, y) implies is_fp_at(
                        g2,
                        x,
                        y,
                    ) by {
                        assert(gv_in_bounds(g1, x, y));
                    }
                    assert forall|m: int| 1 <= m < k implies l_connected(
                        g2,
                        room_center(rooms@[m - 1]),
                        room_center(#[trigger] rooms@[m]),
                    ) by {
                        lemma_l_connected_mono(
                            g1,
                            g2,
                            room_center(rooms@[m - 1]),
                            room_center(rooms@[m]),
                        );
                    }
                    assert(l_connected(
                        g2,
                        room_center(rooms@[k - 1]),
                        room_center(rooms@[k as int]),
                    ));
                    assert forall|x: int, y: int| gv_in_bounds(g2, x, y) implies ((
                    #[trigger] g2[x][y]) is Floor <==> exists|m: int|
                        0 <= m < k + 1 && in_room(#[trigger] rooms@[m], x, y)) by {
                        if g2[x][y] is Floor {
                            assert(g1[x][y] is Floor);
                            if in_room(room, x, y) {
                                assert(in_room(rooms@[k as int], x, y));
                            } else {
                                assert(g0[x][y] is Floor);
                            }
                        }
                        if exists|m: int| 0 <= m < k + 1 && in_room(#[trigger] rooms@[m], x, y) {
                            let m = choose|m: int|
                                0 <= m < k + 1 && in_room(#[trigger] rooms@[m], x, y);
                            if m == k {
                                assert(g1[x][y] is Floor);
                            } else {
                                assert(g0[x][y] is Floor);
                                assert(g1[x][y] is Floor);
                            }
                            assert(g2[x][y] is Floor);
                        }
                    }
                    assert forall|x: int, y: int| gv_in_bounds(g2, x, y) implies is_terrain(
                        #[trigger] g2[x][y],
                    ) by {
                        assert(is_terrain(g0[x][y]));
                        assert(is_terrain(g1[x][y]));
                    }
                }
            } else {
                proof {
                    assert forall|x: int, y: int| gv_in_bounds(g1, x, y) implies ((
                    #[trigger] g1[x][y]) is Floor <==> exists|m: int|
                        0 <= m < k + 1 && in_room(#[trigger] rooms@[m], x, y)) by {
                        if g1[x][y] is Floor {
                            assert(in_room(rooms@[k as int], x, y));
                        }
                        if exists|m: int| 0 <= m < k + 1 && in_room(#[trigger] rooms@[m], x, y) {
                            let m = choose|m: int|
                                0 <= m < k + 1 && in_room(#[trigger] rooms@[m], x, y);
                            assert(m == k);
                            assert(g1[x][y] is Floor);
                        }
                    }
                    assert forall|x: int, y: int| gv_in_bounds(g1, x, y) implies is_terrain(
                        #[trigger] g1[x][y],
                    ) by {
                        assert(is_terrain(g0[x][y]));
                    }
                }
            }
        }
        let ghost mid = layer@;
        proof {
            assert(carved_grid_ok(mid, rooms@, row as int, column as int));
        }
        classify(&mut layer);
        let result = RoomLayer { layer, rooms };
        proof {
            assert(carved_grid_ok(mid, result.rooms@, row as int, column as int) && result.layer@
                == classify_grid(mid));
        }
        result
    }
}

/// Builds the default DUNGEON_WIDE × DUNGEON_HEIGHT map: up to MAX_ROOMS
/// rooms placed, tunnels carved between consecutive centers, every cell
/// classified.
pub fn new_map() -> (m: Matrix<TileType>)
    ensures
        m.wf(),
        m.row == DUNGEON_WIDE,
        m.column == DUNGEON_HEIGHT,
        exists|rooms: Seq<Room>, mid: Seq<Seq<TileType>>|
            #[trigger] carved_grid_ok(mid, rooms, DUNGEON_WIDE as int, DUNGEON_HEIGHT as int)
                && rooms.len() >= 1 && m@ == classify_grid(mid),
{
    let level = RoomLayer::new(DUNGEON_WIDE, DUNGEON_HEIGHT, MAX_ROOMS);
    proof {
        let mid = choose|mid: Seq<Seq<TileType>>|
            #[trigger] carved_grid_ok(mid, level.rooms@, DUNGEON_WIDE as int, DUNGEON_HEIGHT as int)
                && level.layer@ == classify_grid(mid);
        assert(carved_grid_ok(mid, level.rooms@, DUNGEON_WIDE as int, DUNGEON_HEIGHT as int)
            && level.rooms@.len() >= 1 && level.layer@ == classify_grid(mid));
    }
    level.layer
}

} // verus!

