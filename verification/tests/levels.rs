use dungeon_gen::classify::{
    classify, corner_pass, door_pass_1x2, door_pass_2x1, wall_pass_1x3, wall_pass_3x1,
};
use dungeon_gen::layout::{idx_xy, new_map, RoomLayer, DUNGEON_HEIGHT, DUNGEON_WIDE};
use dungeon_gen::matrix::Matrix;
use dungeon_gen::room::{apply_column_tunnel, apply_room_to_map, Room};
use dungeon_gen::tile::{CornerType, DoorType, TileType, WallType};

fn corner(c: CornerType) -> TileType {
    TileType::Wall(WallType::InternalCorner(c))
}

#[test]
fn classify_single_small_room() {
    // A 2x2 Floor room stamped at origin (1, 1) in a 5x5 grid: the four
    // outer-diagonal cells become internal corners, the room's own edge
    // cells become plain walls, and everything outside a one-cell halo
    // stays Empty.
    let mut layer = Matrix::new(TileType::Empty, 5, 5);
    apply_room_to_map(&mut layer, &Room::new(1, 1, 1, 1));
    classify(&mut layer);

    assert_eq!(layer.get(0, 0), corner(CornerType::BottomLeft));
    assert_eq!(layer.get(0, 3), corner(CornerType::BottomRight));
    assert_eq!(layer.get(3, 0), corner(CornerType::TopLeft));
    assert_eq!(layer.get(3, 3), corner(CornerType::TopRight));
    assert_eq!(layer.get(1, 1), TileType::Wall(WallType::Left));
    assert_eq!(layer.get(1, 2), TileType::Wall(WallType::Right));
    assert_eq!(layer.get(2, 1), TileType::Wall(WallType::Left));
    assert_eq!(layer.get(2, 2), TileType::Wall(WallType::Right));
    for i in 0..5 {
        for j in 0..5 {
            let in_halo = i <= 3 && j <= 3;
            let named = (i == 0 || i == 3) && (j == 0 || j == 3) || (1..=2).contains(&i)
                && (1..=2).contains(&j);
            if !in_halo || !named {
                assert_eq!(layer.get(i, j), TileType::Empty, "cell ({}, {})", i, j);
            }
        }
    }
}

#[test]
fn classify_larger_room_keeps_interior() {
    // A 3x3 room keeps its center as Floor: the ring becomes walls and
    // corners, the middle survives.
    let mut layer = Matrix::new(TileType::Empty, 7, 7);
    apply_room_to_map(&mut layer, &Room::new(2, 2, 2, 2));
    classify(&mut layer);
    assert_eq!(layer.get(3, 3), TileType::Floor);
    assert_eq!(layer.get(2, 2), TileType::Wall(WallType::Left));
    assert_eq!(layer.get(2, 4), TileType::Wall(WallType::Right));
    assert_eq!(layer.get(2, 3), TileType::Wall(WallType::Bottom));
    assert_eq!(layer.get(4, 3), TileType::Wall(WallType::Top));
    assert_eq!(layer.get(1, 1), corner(CornerType::BottomLeft));
    assert_eq!(layer.get(5, 5), corner(CornerType::TopRight));
}

#[test]
fn classifier_is_idempotent() {
    // Running the classifier a second time changes nothing.
    let mut layer = Matrix::new(TileType::Empty, 9, 12);
    apply_room_to_map(&mut layer, &Room::new(1, 1, 2, 2));
    apply_room_to_map(&mut layer, &Room::new(5, 7, 3, 3));
    apply_column_tunnel(&mut layer, 2, 2, 8);
    let mut once = layer.clone();
    classify(&mut once);
    let mut twice = once.clone();
    classify(&mut twice);
    assert_eq!(once, twice);
}

#[test]
fn tunnel_free_level_has_no_paths_or_doors() {
    // One room, no carving: no Path and no Door tile anywhere, and each
    // wall or corner touches the room's floor halo.
    let mut layer = Matrix::new(TileType::Empty, 8, 8);
    let room = Room::new(2, 2, 3, 3);
    apply_room_to_map(&mut layer, &room);
    let stamped = layer.clone();
    classify(&mut layer);
    for i in 0..8usize {
        for j in 0..8usize {
            let tile = layer.get(i, j);
            assert!(tile != TileType::Path);
            assert!(!matches!(tile, TileType::Door(_)));
            if matches!(tile, TileType::Wall(_)) {
                let mut floor_near = false;
                for a in i.saturating_sub(1)..=(i + 1).min(7) {
                    for b in j.saturating_sub(1)..=(j + 1).min(7) {
                        if stamped.get(a, b) == TileType::Floor {
                            floor_near = true;
                        }
                    }
                }
                assert!(floor_near, "wall at ({}, {}) far from any floor", i, j);
            }
        }
    }
}

#[test]
fn doors_appear_at_floor_path_transitions() {
    // A room with a tunnel leaving its right edge: the edge cell on the
    // tunnel's row becomes a door, overriding the plain wall there.
    let mut layer = Matrix::new(TileType::Empty, 7, 9);
    apply_room_to_map(&mut layer, &Room::new(2, 1, 2, 2));
    // Carve along row 3 from just outside the room's right edge.
    apply_column_tunnel(&mut layer, 3, 4, 7);
    assert_eq!(layer.get(3, 4), TileType::Path);
    let g1 = corner_pass(&layer);
    let g2 = wall_pass_1x3(&g1);
    let g3 = wall_pass_3x1(&g2);
    let g4 = door_pass_2x1(&g3);
    let done = door_pass_1x2(&g4);
    // The room edge cell (3, 3) sits left of Path (3, 4).
    assert_eq!(done.get(3, 3), TileType::Door(DoorType::Bottom));
    // Running the passes through `classify` gives the same grid.
    let mut whole = layer.clone();
    classify(&mut whole);
    assert_eq!(done, whole);
}

#[test]
fn generated_level_respects_bounds() {
    // Exercises the randomized pipeline end to end: accepted rooms stay
    // inside the margin, are pairwise disjoint, and the grid keeps its
    // dimensions with every cell classified.
    let level = RoomLayer::new(15, 15, 6);
    assert_eq!(level.layer.row(), 15);
    assert_eq!(level.layer.column(), 15);
    assert_eq!(level.layer.iter().len(), 15 * 15);
    assert!(level.rooms.len() <= 24);
    for a in 0..level.rooms.len() {
        let r = &level.rooms[a];
        assert!(r.i >= 1 && r.j >= 1);
        assert!(r.i + r.row <= 13 && r.j + r.column <= 13);
        assert!(3 <= r.row && r.row <= 4 && 3 <= r.column && r.column <= 4);
        for b in (a + 1)..level.rooms.len() {
            assert!(!level.rooms[a].intersect(&level.rooms[b]));
        }
    }
}

#[test]
fn default_map_covers_grid() {
    let map = new_map();
    assert_eq!(map.row(), DUNGEON_WIDE);
    assert_eq!(map.column(), DUNGEON_HEIGHT);
    assert_eq!(map.iter().len(), DUNGEON_WIDE * DUNGEON_HEIGHT);
    // At least one room is always accepted, so the map holds some
    // non-Empty classification.
    assert!(map.iter().iter().any(|t| *t != TileType::Empty));
}

#[test]
fn default_dungeon_dimensions() {
    assert_eq!(DUNGEON_WIDE, 20);
    assert_eq!(DUNGEON_HEIGHT, 10);
    assert_eq!(idx_xy(0), (0, 0));
    assert_eq!(idx_xy(19), (0, 19));
    assert_eq!(idx_xy(45), (2, 5));
    assert_eq!(idx_xy(199), (9, 19));
}
