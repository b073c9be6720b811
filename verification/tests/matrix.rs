use dungeon_gen::matrix::Matrix;

#[test]
fn from_vec() {
    let mat = Matrix::from_vec(2, 3, vec![(0, 0), (0, 1), (0, 2), (1, 0), (1, 1), (1, 2)]);
    for i in 0..mat.row() {
        for j in 0..mat.column() {
            assert_eq!((i, j), mat.get(i, j));
        }
    }
}

#[test]
fn index() {
    let mat = Matrix::from_fn(3, 5, |i, j| (i, j));
    for i in 0..mat.row() {
        for j in 0..mat.column() {
            assert_eq!((i, j), mat.get(i, j));
        }
    }
}

#[test]
fn trans() {
    let mut square = Matrix::from_vec(3, 3, vec![1, 2, 3, 4, 5, 6, 7, 8, 9]);
    assert_eq!(
        square.trans(),
        Matrix::from_vec(3, 3, vec![1, 4, 7, 2, 5, 8, 3, 6, 9])
    );
    square.trans_in_place();
    assert_eq!(
        square,
        Matrix::from_vec(3, 3, vec![1, 4, 7, 2, 5, 8, 3, 6, 9])
    );

    let mut vector = Matrix::from_vec(3, 1, vec![1, 2, 3]);
    assert_eq!(vector.trans(), Matrix::from_vec(1, 3, vec![1, 2, 3]));
    vector.trans_in_place();
    assert_eq!(vector, Matrix::from_vec(1, 3, vec![1, 2, 3]));

    let mut rect_2_3 = Matrix::from_vec(3, 2, vec![1, 2, 3, 4, 5, 6]);
    assert_eq!(
        rect_2_3.trans(),
        Matrix::from_vec(2, 3, vec![1, 3, 5, 2, 4, 6])
    );
    rect_2_3.trans_in_place();
    assert_eq!(rect_2_3, Matrix::from_vec(2, 3, vec![1, 3, 5, 2, 4, 6]));

    let mut rect_5_2 = Matrix::from_vec(2, 5, vec![1, 2, 3, 4, 5, 6, 7, 8, 9, 10]);
    assert_eq!(
        rect_5_2.trans(),
        Matrix::from_vec(5, 2, vec![1, 6, 2, 7, 3, 8, 4, 9, 5, 10])
    );
    rect_5_2.trans_in_place();
    assert_eq!(
        rect_5_2,
        Matrix::from_vec(5, 2, vec![1, 6, 2, 7, 3, 8, 4, 9, 5, 10])
    );

    let mut rect_5_3 = Matrix::from_vec(
        3,
        5,
        vec![1, 2, 3, 4, 5, 6, 7, 8, 9, 10, 11, 12, 13, 14, 15],
    );
    assert_eq!(
        rect_5_3.trans(),
        Matrix::from_vec(
            5,
            3,
            vec![1, 6, 11, 2, 7, 12, 3, 8, 13, 4, 9, 14, 5, 10, 15]
        )
    );
    rect_5_3.trans_in_place();
    assert_eq!(
        rect_5_3,
        Matrix::from_vec(
            5,
            3,
            vec![1, 6, 11, 2, 7, 12, 3, 8, 13, 4, 9, 14, 5, 10, 15]
        )
    );
}

#[test]
fn windows2x2() {
    let square = Matrix::from_vec(3, 3, vec![1, 2, 3, 4, 5, 6, 7, 8, 9]);
    let mut square_windows = square.windows(2, 2);

    assert_eq!(
        square_windows.next(),
        Some((0, 0, Matrix::from_vec(2, 2, vec![1, 2, 4, 5])))
    );
    assert_eq!(
        square_windows.next(),
        Some((0, 1, Matrix::from_vec(2, 2, vec![2, 3, 5, 6])))
    );
    assert_eq!(
        square_windows.next(),
        Some((1, 0, Matrix::from_vec(2, 2, vec![4, 5, 7, 8])))
    );
    assert_eq!(
        square_windows.next(),
        Some((1, 1, Matrix::from_vec(2, 2, vec![5, 6, 8, 9])))
    );
    assert_eq!(square_windows.next(), None);
}

#[test]
fn windows1x2() {
    let square = Matrix::from_vec(2, 2, vec![1, 2, 3, 4]);
    let mut square_windows = square.windows(1, 2);

    assert_eq!(
        square_windows.next(),
        Some((0, 0, Matrix::from_vec(1, 2, vec![1, 2])))
    );
    assert_eq!(
        square_windows.next(),
        Some((1, 0, Matrix::from_vec(1, 2, vec![3, 4])))
    );
    assert_eq!(square_windows.next(), None);
}

#[test]
fn windows2x1() {
    let square = Matrix::from_vec(2, 2, vec![1, 2, 3, 4]);
    let mut square_windows = square.windows(2, 1);

    assert_eq!(
        square_windows.next(),
        Some((0, 0, Matrix::from_vec(2, 1, vec![1, 3])))
    );
    assert_eq!(
        square_windows.next(),
        Some((0, 1, Matrix::from_vec(2, 1, vec![2, 4])))
    );
    assert_eq!(square_windows.next(), None);
}

#[test]
fn windows_anchor_sweep() {
    // A 2x2 window over a 3x3 grid fits at exactly four anchors, visited
    // in row-major order.
    let square = Matrix::new(0u8, 3, 3);
    let mut w = square.windows(2, 2);
    let mut anchors = Vec::new();
    while let Some((i, j, block)) = w.next() {
        assert_eq!(block.row(), 2);
        assert_eq!(block.column(), 2);
        anchors.push((i, j));
    }
    assert_eq!(anchors, vec![(0, 0), (0, 1), (1, 0), (1, 1)]);

    // A 1x2 window over a 3x4 grid fits at nine anchors in row-major order.
    let rect = Matrix::new(0u8, 3, 4);
    let mut w = rect.windows(1, 2);
    let mut anchors = Vec::new();
    while let Some((i, j, _)) = w.next() {
        anchors.push((i, j));
    }
    assert_eq!(
        anchors,
        vec![
            (0, 0),
            (0, 1),
            (0, 2),
            (1, 0),
            (1, 1),
            (1, 2),
            (2, 0),
            (2, 1),
            (2, 2)
        ]
    );
}

#[test]
fn iteration_covers_every_cell() {
    // Iterating a grid yields exactly row * column entries, in row-major
    // order, each cell appearing exactly once.
    let mat = Matrix::from_fn(4, 7, |i, j| 100 * i + j);
    let cells = mat.iter();
    assert_eq!(cells.len(), 4 * 7);
    for i in 0..4 {
        for j in 0..7 {
            assert_eq!(cells[i * 7 + j], 100 * i + j);
        }
    }
}
