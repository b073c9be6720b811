use dungeon_gen::matrix::Matrix;
use dungeon_gen::room::{
    apply_column_tunnel, apply_room_to_map, generate_rooms_bounded, try_generate_rooms,
    ConfigError, Room,
};
use dungeon_gen::tile::TileType;

fn room_str(r: &Room) -> String {
    format!("Room::new({}, {}, {}, {})", r.i, r.j, r.row, r.column)
}

fn check_intersections(cases: &[(Room, Room, bool)]) -> Result<(), String> {
    cases.iter().try_for_each(|(room1, room2, expected)| {
        if room1.intersect(room2) == *expected {
            Ok(())
        } else {
            Err(format!(
                "{}.intersect({}) result: {}, expected: {}",
                room_str(room1),
                room_str(room2),
                room1.intersect(room2),
                expected
            ))
        }
    })
}

#[test]
fn room_test_intersections() -> Result<(), String> {
    let square_room_3 = |i, j| Room::new(i, j, 3, 3);

    check_intersections(&[
        (square_room_3(0, 0), square_room_3(3, 3), true),
        (square_room_3(0, 0), square_room_3(4, 4), false),
        (square_room_3(0, 0), square_room_3(3, 0), true),
        (square_room_3(0, 0), square_room_3(4, 0), false),
        (square_room_3(0, 0), square_room_3(0, 3), true),
        (square_room_3(0, 0), square_room_3(0, 4), false),
    ])?;
    Ok(())
}

#[test]
fn room_layer_test_intersections() -> Result<(), String> {
    let square_room_3 = |i, j| Room::new(i, j, 3, 3);

    check_intersections(&[
        (square_room_3(0, 0), square_room_3(3, 3), true),
        (square_room_3(0, 0), square_room_3(4, 4), false),
        (square_room_3(0, 0), square_room_3(3, 0), true),
        (square_room_3(0, 0), square_room_3(4, 0), false),
        (square_room_3(0, 0), square_room_3(0, 3), true),
        (square_room_3(0, 0), square_room_3(0, 4), false),
    ])?;
    Ok(())
}

#[test]
fn intersection_is_symmetric() {
    let rooms = [
        Room::new(0, 0, 3, 3),
        Room::new(2, 1, 4, 2),
        Room::new(5, 5, 1, 1),
        Room::new(-2, -3, 2, 6),
    ];
    for a in rooms.iter() {
        for b in rooms.iter() {
            assert_eq!(a.intersect(b), b.intersect(a));
        }
    }
}

#[test]
fn center_biases_toward_origin() {
    assert_eq!(Room::new(1, 1, 2, 2).center(), (2, 2));
    assert_eq!(Room::new(1, 7, 2, 2).center(), (2, 8));
    assert_eq!(Room::new(0, 0, 3, 5).center(), (1, 2));
    assert_eq!(Room::new(4, 6, 4, 4).center(), (6, 8));
}

#[test]
fn stamping_floors_whole_bounding_box() {
    // Immediately after the stamping phase, every cell of the room's
    // inclusive bounding box is Floor, and no other cell was touched.
    let mut layer = Matrix::new(TileType::Empty, 8, 8);
    let room = Room::new(2, 3, 2, 3);
    apply_room_to_map(&mut layer, &room);
    for i in 0..8i32 {
        for j in 0..8i32 {
            let expect_floor = 2 <= i && i <= 4 && 3 <= j && j <= 6;
            let tile = layer.get(i as usize, j as usize);
            if expect_floor {
                assert_eq!(tile, TileType::Floor);
            } else {
                assert_eq!(tile, TileType::Empty);
            }
        }
    }
}

#[test]
fn carve_connects_centers_along_row() {
    // Two rooms with centers (2, 2) and (2, 8); carving along row 2 from
    // column 2 to column 8 leaves every cell (2, j) Path or Floor.
    let mut layer = Matrix::new(TileType::Empty, 5, 11);
    let left = Room::new(1, 1, 2, 2);
    let right = Room::new(1, 7, 2, 2);
    assert_eq!(left.center(), (2, 2));
    assert_eq!(right.center(), (2, 8));
    apply_room_to_map(&mut layer, &left);
    apply_room_to_map(&mut layer, &right);
    apply_column_tunnel(&mut layer, 2, 2, 8);
    for j in 2..=8usize {
        let tile = layer.get(2, j);
        assert!(
            tile == TileType::Floor || tile == TileType::Path,
            "cell (2, {}) left Empty",
            j
        );
    }
    // Carving never overwrites a Floor cell.
    assert_eq!(layer.get(2, 2), TileType::Floor);
    assert_eq!(layer.get(2, 8), TileType::Floor);
    assert_eq!(layer.get(2, 5), TileType::Path);
}

#[test]
fn rejection_sampling_is_bounded() {
    // Oversized rooms in a tight grid: the sampler terminates within its
    // budget and never returns more rooms than four per requested one.
    let rooms = generate_rooms_bounded(10, 10, 6, 4, 6);
    assert!(rooms.len() <= 24);
    for a in 0..rooms.len() {
        for b in 0..rooms.len() {
            if a != b {
                assert!(!rooms[a].intersect(&rooms[b]));
            }
        }
        assert!(rooms[a].i >= 1 && rooms[a].j >= 1);
        assert!(rooms[a].i + rooms[a].row <= 8);
        assert!(rooms[a].j + rooms[a].column <= 8);
        assert!(4 <= rooms[a].row && rooms[a].row <= 6);
        assert!(4 <= rooms[a].column && rooms[a].column <= 6);
    }
}

#[test]
fn config_zero_room_count() {
    assert_eq!(
        try_generate_rooms(10, 10, 0, 3, 4),
        Err(ConfigError::ZeroRoomCount)
    );
}

#[test]
fn config_bad_size_range() {
    assert_eq!(
        try_generate_rooms(10, 10, 2, 5, 4),
        Err(ConfigError::BadSizeRange)
    );
    assert_eq!(
        try_generate_rooms(10, 10, 2, 0, 4),
        Err(ConfigError::BadSizeRange)
    );
}

#[test]
fn config_grid_too_small() {
    assert_eq!(
        try_generate_rooms(6, 10, 2, 3, 4),
        Err(ConfigError::GridTooSmall)
    );
    assert_eq!(
        try_generate_rooms(10, 5, 2, 3, 4),
        Err(ConfigError::GridTooSmall)
    );
}

#[test]
fn config_grid_too_large() {
    assert_eq!(
        try_generate_rooms(usize::MAX, 10, 2, 3, 4),
        Err(ConfigError::GridTooLarge)
    );
}

#[test]
fn config_too_many_rooms() {
    assert_eq!(
        try_generate_rooms(10, 10, usize::MAX, 3, 4),
        Err(ConfigError::TooManyRooms)
    );
}

#[test]
fn config_accepts_sound_bounds() {
    let rooms = try_generate_rooms(12, 12, 3, 3, 4).unwrap();
    assert!(rooms.len() <= 12);
    for a in 0..rooms.len() {
        for b in (a + 1)..rooms.len() {
            assert!(!rooms[a].intersect(&rooms[b]));
            assert!(!rooms[b].intersect(&rooms[a]));
        }
    }
}
