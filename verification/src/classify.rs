//! The tile classifier: five ordered sliding-window passes that rewrite
//! boundary cells of a stamped-and-carved grid into wall, corner and door
//! tiles.
//!
//! Every pass reads a snapshot of the grid as it stood when the pass
//! started and writes its results into a fresh grid, so the window
//! evaluations of one pass are self-consistent while later passes see
//! earlier passes' writes. Patterns match only on the terrain values
//! Empty, Floor and Path — never on Wall or Door — which is what makes
//! the whole classification idempotent.

use vstd::prelude::*;
use crate::matrix::Matrix;
use crate::tile::{CornerType, DoorType, TileType, WallType};

verus! {

/// Whether (i, j) lies inside the grid view.
pub open spec fn gv_in_bounds(s: Seq<Seq<TileType>>, i: int, j: int) -> bool {
    0 <= i < s.len() && 0 <= j < s[i].len()
}

/// The cell (i, j) is in bounds and holds Empty.
pub open spec fn is_empty_at(s: Seq<Seq<TileType>>, i: int, j: int) -> bool {
    gv_in_bounds(s, i, j) && s[i][j] is Empty
}

/// The cell (i, j) is in bounds and holds Floor.
pub open spec fn is_floor_at(s: Seq<Seq<TileType>>, i: int, j: int) -> bool {
    gv_in_bounds(s, i, j) && s[i][j] is Floor
}

/// The cell (i, j) is in bounds and holds Path.
pub open spec fn is_path_at(s: Seq<Seq<TileType>>, i: int, j: int) -> bool {
    gv_in_bounds(s, i, j) && s[i][j] is Path
}

/// The terrain values that classification patterns match on.
pub open spec fn is_terrain(t: TileType) -> bool {
    t is Empty || t is Floor || t is Path
}

/// Value of cell (i, j) after the 2x2 internal-corner pass.
///
/// A 2x2 window holding exactly one Floor cell with the other three Empty
/// marks the window corner diagonally opposite the Floor cell — not the
/// Floor cell itself — as an internal corner. When several windows target
/// the same cell, the window with the largest row-major anchor decides,
/// which is the order a row-major window sweep would write them in.
pub open spec fn corner_cell(s: Seq<Seq<TileType>>, i: int, j: int) -> TileType {
    if is_empty_at(s, i, j) {
        if is_empty_at(s, i, j + 1) && is_empty_at(s, i + 1, j) && is_floor_at(s, i + 1, j + 1) {
            TileType::Wall(WallType::InternalCorner(CornerType::BottomLeft))
        } else if is_empty_at(s, i, j - 1) && is_floor_at(s, i + 1, j - 1) && is_empty_at(
            s,
            i + 1,
            j,
        ) {
            TileType::Wall(WallType::InternalCorner(CornerType::BottomRight))
        } else if is_empty_at(s, i - 1, j) && is_floor_at(s, i - 1, j + 1) && is_empty_at(
            s,
            i,
            j + 1,
        ) {
            TileType::Wall(WallType::InternalCorner(CornerType::TopLeft))
        } else if is_floor_at(s, i - 1, j - 1) && is_empty_at(s, i - 1, j) && is_empty_at(
            s,
            i,
            j - 1,
        ) {
            TileType::Wall(WallType::InternalCorner(CornerType::TopRight))
        } else {
            s[i][j]
        }
    } else {
        s[i][j]
    }
}

/// Value of cell (i, j) after the 1x3 horizontal wall pass: the middle cell
/// of [Empty, Floor, Floor] becomes Wall(Left), of [Floor, Floor, Empty]
/// Wall(Right).
pub open spec fn wall_cell_1x3(s: Seq<Seq<TileType>>, i: int, j: int) -> TileType {
    if is_empty_at(s, i, j - 1) && is_floor_at(s, i, j) && is_floor_at(s, i, j + 1) {
        TileType::Wall(WallType::Left)
    } else if is_floor_at(s, i, j - 1) && is_floor_at(s, i, j) && is_empty_at(s, i, j + 1) {
        TileType::Wall(WallType::Right)
    } else {
        s[i][j]
    }
}

/// Value of cell (i, j) after the 3x1 vertical wall pass: the middle cell
/// of a vertical [Empty, Floor, Floor] becomes Wall(Bottom), of
/// [Floor, Floor, Empty] Wall(Top).
pub open spec fn wall_cell_3x1(s: Seq<Seq<TileType>>, i: int, j: int) -> TileType {
    if is_empty_at(s, i - 1, j) && is_floor_at(s, i, j) && is_floor_at(s, i + 1, j) {
        TileType::Wall(WallType::Bottom)
    } else if is_floor_at(s, i - 1, j) && is_floor_at(s, i, j) && is_empty_at(s, i + 1, j) {
        TileType::Wall(WallType::Top)
    } else {
        s[i][j]
    }
}

/// Value of cell (i, j) after the 2x1 door pass: a Floor cell with Path in
/// the next row becomes Door(Right); otherwise, with Path in the previous
/// row, Door(Left). The Path-below pattern wins when both apply, matching
/// a row-major window sweep.
pub open spec fn door_cell_2x1(s: Seq<Seq<TileType>>, i: int, j: int) -> TileType {
    if is_floor_at(s, i, j) && is_path_at(s, i + 1, j) {
        TileType::Door(DoorType::Right)
    } else if is_path_at(s, i - 1, j) && is_floor_at(s, i, j) {
        TileType::Door(DoorType::Left)
    } else {
        s[i][j]
    }
}

/// Value of cell (i, j) after the 1x2 door pass: a Floor cell with Path in
/// the next column becomes Door(Bottom); otherwise, with Path in the
/// previous column, Door(Top). The Path-after pattern wins when both
/// apply, matching a row-major window sweep.
pub open spec fn door_cell_1x2(s: Seq<Seq<TileType>>, i: int, j: int) -> TileType {
    if is_floor_at(s, i, j) && is_path_at(s, i, j + 1) {
        TileType::Door(DoorType::Bottom)
    } else if is_path_at(s, i, j - 1) && is_floor_at(s, i, j) {
        TileType::Door(DoorType::Top)
    } else {
        s[i][j]
    }
}

/// The grid after the 2x2 internal-corner pass.
pub open spec fn apply_corner(s: Seq<Seq<TileType>>) -> Seq<Seq<TileType>> {
    Seq::new(s.len(), |i: int| Seq::new(s[i].len(), |j: int| corner_cell(s, i, j)))
}

/// The grid after the 1x3 horizontal wall pass.
pub open spec fn apply_wall_1x3(s: Seq<Seq<TileType>>) -> Seq<Seq<TileType>> {
    Seq::new(s.len(), |i: int| Seq::new(s[i].len(), |j: int| wall_cell_1x3(s, i, j)))
}

/// The grid after the 3x1 vertical wall pass.
pub open spec fn apply_wall_3x1(s: Seq<Seq<TileType>>) -> Seq<Seq<TileType>> {
    Seq::new(s.len(), |i: int| Seq::new(s[i].len(), |j: int| wall_cell_3x1(s, i, j)))
}

/// The grid after the 2x1 door pass.
pub open spec fn apply_door_2x1(s: Seq<Seq<TileType>>) -> Seq<Seq<TileType>> {
    Seq::new(s.len(), |i: int| Seq::new(s[i].len(), |j: int| door_cell_2x1(s, i, j)))
}

/// The grid after the 1x2 door pass.
pub open spec fn apply_door_1x2(s: Seq<Seq<TileType>>) -> Seq<Seq<TileType>> {
    Seq::new(s.len(), |i: int| Seq::new(s[i].len(), |j: int| door_cell_1x2(s, i, j)))
}

/// The grid after all five classification passes, in their fixed order:
/// 2x2 corners, 1x3 walls, 3x1 walls, 2x1 doors, 1x2 doors.
pub open spec fn classify_grid(s: Seq<Seq<TileType>>) -> Seq<Seq<TileType>> {
    apply_door_1x2(apply_door_2x1(apply_wall_3x1(apply_wall_1x3(apply_corner(s)))))
}

/// Whether cell (i, j) of the matrix is in bounds and Empty.
fn empty_at(m: &Matrix<TileType>, i: usize, j: usize) -> (b: bool)
    requires
        m.wf(),
    ensures
        b == is_empty_at(m@, i as int, j as int),
{
    i < m.row && j < m.column && m.get(i, j) == TileType::Empty
}

/// Whether cell (i, j) of the matrix is in bounds and Floor.
fn floor_at(m: &Matrix<TileType>, i: usize, j: usize) -> (b: bool)
    requires
        m.wf(),
    ensures
        b == is_floor_at(m@, i as int, j as int),
{
    i < m.row && j < m.column && m.get(i, j) == TileType::Floor
}

/// Whether cell (i, j) of the matrix is in bounds and Path.
fn path_at(m: &Matrix<TileType>, i: usize, j: usize) -> (b: bool)
    requires
        m.wf(),
    ensures
        b == is_path_at(m@, i as int, j as int),
{
    i < m.row && j < m.column && m.get(i, j) == TileType::Path
}

/// Computes the 2x2 internal-corner pass value of cell (i, j).
fn corner_tile(m: &Matrix<TileType>, i: usize, j: usize) -> (t: TileType)
    requires
        m.wf(),
        i < m.row,
        j < m.column,
    ensures
        t == corner_cell(m@, i as int, j as int),
{
    let here = m.get(i, j);
    if here == TileType::Empty {
        if empty_at(m, i, j + 1) && empty_at(m, i + 1, j) && floor_at(m, i + 1, j + 1) {
            TileType::Wall(WallType::InternalCorner(CornerType::BottomLeft))
        } else if j >= 1 && empty_at(m, i, j - 1) && floor_at(m, i + 1, j - 1) && empty_at(
            m,
            i + 1,
            j,
        ) {
            TileType::Wall(WallType::InternalCorner(CornerType::BottomRight))
        } else if i >= 1 && empty_at(m, i - 1, j) && floor_at(m, i - 1, j + 1) && empty_at(
            m,
            i,
            j + 1,
        ) {
            TileType::Wall(WallType::InternalCorner(CornerType::TopLeft))
        } else if i >= 1 && j >= 1 && floor_at(m, i - 1, j - 1) && empty_at(m, i - 1, j)
            && empty_at(m, i, j - 1) {
            TileType::Wall(WallType::InternalCorner(CornerType::TopRight))
        } else {
            here
        }
    } else {
        here
    }
}

/// Computes the 1x3 horizontal wall pass value of cell (i, j).
fn wall_tile_1x3(m: &Matrix<TileType>, i: usize, j: usize) -> (t: TileType)
    requires
        m.wf(),
        i < m.row,
        j < m.column,
    ensures
        t == wall_cell_1x3(m@, i as int, j as int),
{
    if j >= 1 && empty_at(m, i, j - 1) && floor_at(m, i, j) && floor_at(m, i, j + 1) {
        TileType::Wall(WallType::Left)
    } else if j >= 1 && floor_at(m, i, j - 1) && floor_at(m, i, j) && empty_at(m, i, j + 1) {
        TileType::Wall(WallType::Right)
    } else {
        m.get(i, j)
    }
}

/// Computes the 3x1 vertical wall pass value of cell (i, j).
fn wall_tile_3x1(m: &Matrix<TileType>, i: usize, j: usize) -> (t: TileType)
    requires
        m.wf(),
        i < m.row,
        j < m.column,
    ensures
        t == wall_cell_3x1(m@, i as int, j as int),
{
    if i >= 1 && empty_at(m, i - 1, j) && floor_at(m, i, j) && floor_at(m, i + 1, j) {
        TileType::Wall(WallType::Bottom)
    } else if i >= 1 && floor_at(m, i - 1, j) && floor_at(m, i, j) && empty_at(m, i + 1, j) {
        TileType::Wall(WallType::Top)
    } else {
        m.get(i, j)
    }
}

/// Computes the 2x1 door pass value of cell (i, j).
fn door_tile_2x1(m: &Matrix<TileType>, i: usize, j: usize) -> (t: TileType)
    requires
        m.wf(),
        i < m.row,
        j < m.column,
    ensures
        t == door_cell_2x1(m@, i as int, j as int),
{
    if floor_at(m, i, j) && path_at(m, i + 1, j) {
        TileType::Door(DoorType::Right)
    } else if i >= 1 && path_at(m, i - 1, j) && floor_at(m, i, j) {
        TileType::Door(DoorType::Left)
    } else {
        m.get(i, j)
    }
}

/// Computes the 1x2 door pass value of cell (i, j).
fn door_tile_1x2(m: &Matrix<TileType>, i: usize, j: usize) -> (t: TileType)
    requires
        m.wf(),
        i < m.row,
        j < m.column,
    ensures
        t == door_cell_1x2(m@, i as int, j as int),
{
    if floor_at(m, i, j) && path_at(m, i, j + 1) {
        TileType::Door(DoorType::Bottom)
    } else if j >= 1 && path_at(m, i, j - 1) && floor_at(m, i, j) {
        TileType::Door(DoorType::Top)
    } else {
        m.get(i, j)
    }
}

/// Runs the 2x2 internal-corner pass over a snapshot of the grid.
pub fn corner_pass(m: &Matrix<TileType>) -> (r: Matrix<TileType>)
    requires
        m.wf(),
    ensures
        r.wf(),
        r.row == m.row,
        r.column == m.column,
        r@ == apply_corner(m@),
{
    let rule = |a: usize, b: usize| -> (t: TileType)
        requires
            m.wf(),
            a < m.row,
            b < m.column,
        ensures
            t == corner_cell(m@, a as int, b as int),
        {
            corner_tile(m, a, b)
        };
    let r = Matrix::from_fn(m.row, m.column, rule);
    proof {
        assert forall|i: int, j: int| 0 <= i < m.row && 0 <= j < m.column implies r@[i][j]
            == corner_cell(m@, i, j) by {
            assert(r@[i][j] == r.cell(i, j));
        }
        assert(r@ =~~= apply_corner(m@));
    }
    r
}

/// Runs the 1x3 horizontal wall pass over a snapshot of the grid.
pub fn wall_pass_1x3(m: &Matrix<TileType>) -> (r: Matrix<TileType>)
    requires
        m.wf(),
    ensures
        r.wf(),
        r.row == m.row,
        r.column == m.column,
        r@ == apply_wall_1x3(m@),
{
    let rule = |a: usize, b: usize| -> (t: TileType)
        requires
            m.wf(),
            a < m.row,
            b < m.column,
        ensures
            t == wall_cell_1x3(m@, a as int, b as int),
        {
            wall_tile_1x3(m, a, b)
        };
    let r = Matrix::from_fn(m.row, m.column, rule);
    proof {
        assert forall|i: int, j: int| 0 <= i < m.row && 0 <= j < m.column implies r@[i][j]
            == wall_cell_1x3(m@, i, j) by {
            assert(r@[i][j] == r.cell(i, j));
        }
        assert(r@ =~~= apply_wall_1x3(m@));
    }
    r
}

/// Runs the 3x1 vertical wall pass over a snapshot of the grid.
pub fn wall_pass_3x1(m: &Matrix<TileType>) -> (r: Matrix<TileType>)
    requires
        m.wf(),
    ensures
        r.wf(),
        r.row == m.row,
        r.column == m.column,
        r@ == apply_wall_3x1(m@),
{
    let rule = |a: usize, b: usize| -> (t: TileType)
        requires
            m.wf(),
            a < m.row,
            b < m.column,
        ensures
            t == wall_cell_3x1(m@, a as int, b as int),
        {
            wall_tile_3x1(m, a, b)
        };
    let r = Matrix::from_fn(m.row, m.column, rule);
    proof {
        assert forall|i: int, j: int| 0 <= i < m.row && 0 <= j < m.column implies r@[i][j]
            == wall_cell_3x1(m@, i, j) by {
            assert(r@[i][j] == r.cell(i, j));
        }
        assert(r@ =~~= apply_wall_3x1(m@));
    }
    r
}

/// Runs the 2x1 door pass over a snapshot of the grid.
pub fn door_pass_2x1(m: &Matrix<TileType>) -> (r: Matrix<TileType>)
    requires
        m.wf(),
    ensures
        r.wf(),
        r.row == m.row,
        r.column == m.column,
        r@ == apply_door_2x1(m@),
{
    let rule = |a: usize, b: usize| -> (t: TileType)
        requires
            m.wf(),
            a < m.row,
            b < m.column,
        ensures
            t == door_cell_2x1(m@, a as int, b as int),
        {
            door_tile_2x1(m, a, b)
        };
    let r = Matrix::from_fn(m.row, m.column, rule);
    proof {
        assert forall|i: int, j: int| 0 <= i < m.row && 0 <= j < m.column implies r@[i][j]
            == door_cell_2x1(m@, i, j) by {
            assert(r@[i][j] == r.cell(i, j));
        }
        assert(r@ =~~= apply_door_2x1(m@));
    }
    r
}

/// Runs the 1x2 door pass over a snapshot of the grid.
pub fn door_pass_1x2(m: &Matrix<TileType>) -> (r: Matrix<TileType>)
    requires
        m.wf(),
    ensures
        r.wf(),
        r.row == m.row,
        r.column == m.column,
        r@ == apply_door_1x2(m@),
{
    let rule = |a: usize, b: usize| -> (t: TileType)
        requires
            m.wf(),
            a < m.row,
            b < m.column,
        ensures
            t == door_cell_1x2(m@, a as int, b as int),
        {
            door_tile_1x2(m, a, b)
        };
    let r = Matrix::from_fn(m.row, m.column, rule);
    proof {
        assert forall|i: int, j: int| 0 <= i < m.row && 0 <= j < m.column implies r@[i][j]
            == door_cell_1x2(m@, i, j) by {
            assert(r@[i][j] == r.cell(i, j));
        }
        assert(r@ =~~= apply_door_1x2(m@));
    }
    r
}

/// Runs the five classification passes in their fixed order, replacing the
/// grid with its fully classified form. Each pass reads the grid as the
/// previous pass left it and writes into a fresh snapshot. Running the
/// classifier a second time changes nothing (`lemma_classify_idempotent`).
pub fn classify(m: &mut Matrix<TileType>)
    requires
        old(m).wf(),
    ensures
        final(m).wf(),
        final(m).row == old(m).row,
        final(m).column == old(m).column,
        final(m)@ == classify_grid(old(m)@),
{
    let g1 = corner_pass(m);
    let g2 = wall_pass_1x3(&g1);
    let g3 = wall_pass_3x1(&g2);
    let g4 = door_pass_2x1(&g3);
    let g5 = door_pass_1x2(&g4);
    *m = g5;
}

/// The grid after the first pass alone.
pub open spec fn stage1(s: Seq<Seq<TileType>>) -> Seq<Seq<TileType>> {
    apply_corner(s)
}

/// The grid after the first two passes.
pub open spec fn stage2(s: Seq<Seq<TileType>>) -> Seq<Seq<TileType>> {
    apply_wall_1x3(stage1(s))
}

/// The grid after the first three passes.
pub open spec fn stage3(s: Seq<Seq<TileType>>) -> Seq<Seq<TileType>> {
    apply_wall_3x1(stage2(s))
}

/// The grid after the first four passes.
pub open spec fn stage4(s: Seq<Seq<TileType>>) -> Seq<Seq<TileType>> {
    apply_door_2x1(stage3(s))
}

/// Every pass keeps the grid's dimensions.
proof fn lemma_stage_dims(s: Seq<Seq<TileType>>)
    ensures
        stage1(s).len() == s.len(),
        stage2(s).len() == s.len(),
        stage3(s).len() == s.len(),
        stage4(s).len() == s.len(),
        classify_grid(s).len() == s.len(),
        classify_grid(s) == apply_door_1x2(stage4(s)),
        forall|i: int|
            0 <= i < s.len()
                ==> #[trigger] stage1(s)[i].len() == s[i].len() && stage2(s)[i].len()
                    == s[i].len() && stage3(s)[i].len() == s[i].len() && stage4(s)[i].len()
                    == s[i].len() && classify_grid(s)[i].len() == s[i].len(),
{
}

/// A cell of the classified grid that is still terrain — Empty, Floor or
/// Path — was never touched: it holds the same value at every stage.
proof fn lemma_cell_back(s: Seq<Seq<TileType>>, x: int, y: int)
    ensures
        gv_in_bounds(s, x, y) && is_terrain(classify_grid(s)[x][y]) ==> {
            &&& classify_grid(s)[x][y] == stage4(s)[x][y]
            &&& classify_grid(s)[x][y] == stage3(s)[x][y]
            &&& classify_grid(s)[x][y] == stage2(s)[x][y]
            &&& classify_grid(s)[x][y] == stage1(s)[x][y]
            &&& classify_grid(s)[x][y] == s[x][y]
        },
{
    lemma_stage_dims(s);
    if gv_in_bounds(s, x, y) {
        assert(classify_grid(s)[x][y] == door_cell_1x2(stage4(s), x, y));
        assert(stage4(s)[x][y] == door_cell_2x1(stage3(s), x, y));
        assert(stage3(s)[x][y] == wall_cell_3x1(stage2(s), x, y));
        assert(stage2(s)[x][y] == wall_cell_1x3(stage1(s), x, y));
        assert(stage1(s)[x][y] == corner_cell(s, x, y));
    }
}

/// A cell that some pass rewrote into a wall or door keeps that value
/// through every later pass: no rule fires on a non-terrain target.
proof fn lemma_cell_forward(s: Seq<Seq<TileType>>, x: int, y: int)
    ensures
        gv_in_bounds(s, x, y) ==> {
            &&& !is_terrain(stage1(s)[x][y]) ==> classify_grid(s)[x][y] == stage1(s)[x][y]
            &&& !is_terrain(stage2(s)[x][y]) ==> classify_grid(s)[x][y] == stage2(s)[x][y]
            &&& !is_terrain(stage3(s)[x][y]) ==> classify_grid(s)[x][y] == stage3(s)[x][y]
            &&& !is_terrain(stage4(s)[x][y]) ==> classify_grid(s)[x][y] == stage4(s)[x][y]
        },
{
    lemma_stage_dims(s);
    if gv_in_bounds(s, x, y) {
        assert(classify_grid(s)[x][y] == door_cell_1x2(stage4(s), x, y));
        assert(stage4(s)[x][y] == door_cell_2x1(stage3(s), x, y));
        assert(stage3(s)[x][y] == wall_cell_3x1(stage2(s), x, y));
        assert(stage2(s)[x][y] == wall_cell_1x3(stage1(s), x, y));
    }
}

/// The corner rule fires nowhere on a fully classified grid.
proof fn lemma_corner_stable(s: Seq<Seq<TileType>>, x: int, y: int)
    ensures
        gv_in_bounds(s, x, y) ==> corner_cell(classify_grid(s), x, y) == classify_grid(s)[x][y],
{
    lemma_stage_dims(s);
    let h = classify_grid(s);
    if gv_in_bounds(s, x, y) && corner_cell(h, x, y) != h[x][y] {
        lemma_cell_back(s, x, y);
        lemma_cell_back(s, x, y - 1);
        lemma_cell_back(s, x, y + 1);
        lemma_cell_back(s, x - 1, y - 1);
        lemma_cell_back(s, x - 1, y);
        lemma_cell_back(s, x - 1, y + 1);
        lemma_cell_back(s, x + 1, y - 1);
        lemma_cell_back(s, x + 1, y);
        lemma_cell_back(s, x + 1, y + 1);
        assert(stage1(s)[x][y] == corner_cell(s, x, y));
        assert(!is_terrain(corner_cell(s, x, y)));
        lemma_cell_forward(s, x, y);
        assert(false);
    }
}

/// The 1x3 wall rule fires nowhere on a fully classified grid.
proof fn lemma_wall_1x3_stable(s: Seq<Seq<TileType>>, x: int, y: int)
    ensures
        gv_in_bounds(s, x, y) ==> wall_cell_1x3(classify_grid(s), x, y) == classify_grid(s)[x][y],
{
    lemma_stage_dims(s);
    let h = classify_grid(s);
    if gv_in_bounds(s, x, y) && wall_cell_1x3(h, x, y) != h[x][y] {
        lemma_cell_back(s, x, y - 1);
        lemma_cell_back(s, x, y);
        lemma_cell_back(s, x, y + 1);
        assert(stage2(s)[x][y] == wall_cell_1x3(stage1(s), x, y));
        assert(!is_terrain(stage2(s)[x][y]));
        lemma_cell_forward(s, x, y);
        assert(false);
    }
}

/// The 3x1 wall rule fires nowhere on a fully classified grid.
proof fn lemma_wall_3x1_stable(s: Seq<Seq<TileType>>, x: int, y: int)
    ensures
        gv_in_bounds(s, x, y) ==> wall_cell_3x1(classify_grid(s), x, y) == classify_grid(s)[x][y],
{
    lemma_stage_dims(s);
    let h = classify_grid(s);
    if gv_in_bounds(s, x, y) && wall_cell_3x1(h, x, y) != h[x][y] {
        lemma_cell_back(s, x - 1, y);
        lemma_cell_back(s, x, y);
        lemma_cell_back(s, x + 1, y);
        assert(stage3(s)[x][y] == wall_cell_3x1(stage2(s), x, y));
        assert(!is_terrain(stage3(s)[x][y]));
        lemma_cell_forward(s, x, y);
        assert(false);
    }
}

/// The 2x1 door rule fires nowhere on a fully classified grid.
proof fn lemma_door_2x1_stable(s: Seq<Seq<TileType>>, x: int, y: int)
    ensures
        gv_in_bounds(s, x, y) ==> door_cell_2x1(classify_grid(s), x, y) == classify_grid(s)[x][y],
{
    lemma_stage_dims(s);
    let h = classify_grid(s);
    if gv_in_bounds(s, x, y) && door_cell_2x1(h, x, y) != h[x][y] {
        lemma_cell_back(s, x - 1, y);
        lemma_cell_back(s, x, y);
        lemma_cell_back(s, x + 1, y);
        assert(stage4(s)[x][y] == door_cell_2x1(stage3(s), x, y));
        assert(!is_terrain(stage4(s)[x][y]));
        lemma_cell_forward(s, x, y);
        assert(false);
    }
}

/// The 1x2 door rule fires nowhere on a fully classified grid.
proof fn lemma_door_1x2_stable(s: Seq<Seq<TileType>>, x: int, y: int)
    ensures
        gv_in_bounds(s, x, y) ==> door_cell_1x2(classify_grid(s), x, y) == classify_grid(s)[x][y],
{
    lemma_stage_dims(s);
    let h = classify_grid(s);
    if gv_in_bounds(s, x, y) && door_cell_1x2(h, x, y) != h[x][y] {
        lemma_cell_back(s, x, y - 1);
        lemma_cell_back(s, x, y);
        lemma_cell_back(s, x, y + 1);
        assert(h[x][y] == door_cell_1x2(stage4(s), x, y));
        assert(!is_terrain(h[x][y]));
        assert(false);
    }
}

/// Running the tile classifier twice in succession produces the same grid
/// as running it once. Every pattern is keyed on the terrain values Empty,
/// Floor and Path; wherever a pattern would still match after a full run,
/// the first run already rewrote the target cell into a wall or door that
/// no pass touches again, so the second run changes nothing.
pub proof fn lemma_classify_idempotent(s: Seq<Seq<TileType>>)
    ensures
        classify_grid(classify_grid(s)) == classify_grid(s),
{
    let h = classify_grid(s);
    lemma_stage_dims(s);
    assert forall|x: int, y: int| gv_in_bounds(h, x, y) implies #[trigger] corner_cell(h, x, y)
        == h[x][y] by {
        lemma_corner_stable(s, x, y);
    }
    assert(apply_corner(h) =~~= h);
    assert forall|x: int, y: int| gv_in_bounds(h, x, y) implies #[trigger] wall_cell_1x3(h, x, y)
        == h[x][y] by {
        lemma_wall_1x3_stable(s, x, y);
    }
    assert(apply_wall_1x3(h) =~~= h);
    assert forall|x: int, y: int| gv_in_bounds(h, x, y) implies #[trigger] wall_cell_3x1(h, x, y)
        == h[x][y] by {
        lemma_wall_3x1_stable(s, x, y);
    }
    assert(apply_wall_3x1(h) =~~= h);
    assert forall|x: int, y: int| gv_in_bounds(h, x, y) implies #[trigger] door_cell_2x1(h, x, y)
        == h[x][y] by {
        lemma_door_2x1_stable(s, x, y);
    }
    assert(apply_door_2x1(h) =~~= h);
    assert forall|x: int, y: int| gv_in_bounds(h, x, y) implies #[trigger] door_cell_1x2(h, x, y)
        == h[x][y] by {
        lemma_door_1x2_stable(s, x, y);
    }
    assert(apply_door_1x2(h) =~~= h);
    assert(classify_grid(h) == h);
}

/// Boundary behavior of a tunnel-free level: classifying a grid that holds
/// only Empty and Floor cells — a level with a single room and no carved
/// tunnels — yields no Path and no Door tiles, and every wall or corner
/// tile it writes lies within one cell (diagonals included) of a Floor
/// cell of the input grid.
pub proof fn lemma_classify_path_free(s: Seq<Seq<TileType>>)
    requires
        forall|x: int, y: int|
            gv_in_bounds(s, x, y) ==> (#[trigger] s[x][y]) is Empty || s[x][y] is Floor,
    ensures
        forall|x: int, y: int|
            gv_in_bounds(s, x, y) ==> !((#[trigger] classify_grid(s)[x][y]) is Path),
        forall|x: int, y: int|
            gv_in_bounds(s, x, y) ==> !((#[trigger] classify_grid(s)[x][y]) is Door),
        forall|x: int, y: int|
            gv_in_bounds(s, x, y) && (#[trigger] classify_grid(s)[x][y]) is Wall
                ==> exists|a: int, b: int|
                    x - 1 <= a <= x + 1 && y - 1 <= b <= y + 1 && #[trigger] is_floor_at(s, a, b),
{
    lemma_stage_dims(s);
    assert forall|x: int, y: int| gv_in_bounds(s, x, y) implies !((#[trigger] stage1(
        s,
    )[x][y]) is Path) by {
        assert(stage1(s)[x][y] == corner_cell(s, x, y));
    }
    assert forall|x: int, y: int| gv_in_bounds(s, x, y) implies !((#[trigger] stage2(
        s,
    )[x][y]) is Path) by {
        assert(stage2(s)[x][y] == wall_cell_1x3(stage1(s), x, y));
    }
    assert forall|x: int, y: int| gv_in_bounds(s, x, y) implies !((#[trigger] stage3(
        s,
    )[x][y]) is Path) by {
        assert(stage3(s)[x][y] == wall_cell_3x1(stage2(s), x, y));
    }
    assert forall|x: int, y: int| gv_in_bounds(s, x, y) implies !((#[trigger] stage4(
        s,
    )[x][y]) is Path) by {
        assert(stage4(s)[x][y] == door_cell_2x1(stage3(s), x, y));
    }
    assert forall|x: int, y: int| gv_in_bounds(s, x, y) implies !((#[trigger] classify_grid(
        s,
    )[x][y]) is Path) by {
        assert(classify_grid(s)[x][y] == door_cell_1x2(stage4(s), x, y));
    }
    // The door rules demand a Path neighbor, and no stage holds one.
    assert forall|x: int, y: int| gv_in_bounds(s, x, y) implies !((#[trigger] classify_grid(
        s,
    )[x][y]) is Door) by {
        assert(classify_grid(s)[x][y] == door_cell_1x2(stage4(s), x, y));
        assert(stage4(s)[x][y] == door_cell_2x1(stage3(s), x, y));
        assert(stage3(s)[x][y] == wall_cell_3x1(stage2(s), x, y));
        assert(stage2(s)[x][y] == wall_cell_1x3(stage1(s), x, y));
        assert(stage1(s)[x][y] == corner_cell(s, x, y));
    }
    assert forall|x: int, y: int|
        gv_in_bounds(s, x, y) && (#[trigger] classify_grid(s)[x][y]) is Wall implies exists|
        a: int,
        b: int,
    |
        x - 1 <= a <= x + 1 && y - 1 <= b <= y + 1 && #[trigger] is_floor_at(s, a, b) by {
        assert(classify_grid(s)[x][y] == door_cell_1x2(stage4(s), x, y));
        assert(stage4(s)[x][y] == door_cell_2x1(stage3(s), x, y));
        assert(stage3(s)[x][y] == wall_cell_3x1(stage2(s), x, y));
        assert(stage2(s)[x][y] == wall_cell_1x3(stage1(s), x, y));
        assert(stage1(s)[x][y] == corner_cell(s, x, y));
        if stage3(s)[x][y] != stage2(s)[x][y] {
            assert(is_floor_at(stage2(s), x, y));
            assert(is_floor_at(s, x, y));
        } else if stage2(s)[x][y] != stage1(s)[x][y] {
            assert(is_floor_at(stage1(s), x, y));
            assert(is_floor_at(s, x, y));
        } else {
            assert(stage1(s)[x][y] != s[x][y]);
            if is_empty_at(s, x, y + 1) && is_empty_at(s, x + 1, y) && is_floor_at(
                s,
                x + 1,
                y + 1,
            ) {
                assert(is_floor_at(s, x + 1, y + 1));
            } else if is_empty_at(s, x, y - 1) && is_floor_at(s, x + 1, y - 1) && is_empty_at(
                s,
                x + 1,
                y,
            ) {
                assert(is_floor_at(s, x + 1, y - 1));
            } else if is_empty_at(s, x - 1, y) && is_floor_at(s, x - 1, y + 1) && is_empty_at(
                s,
                x,
                y + 1,
            ) {
                assert(is_floor_at(s, x - 1, y + 1));
            } else {
                assert(is_floor_at(s, x - 1, y - 1));
            }
        }
    }
}

} // verus!
