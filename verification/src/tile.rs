//! The closed set of tile classifications that a generated level assigns to
//! every grid cell.

use vstd::prelude::*;

verus! {

/// Direction of a concave (inward-turning) boundary corner of a room.
#[derive(Clone, Copy, Debug, PartialEq, Eq, Structural)]
pub enum CornerType {
    TopLeft,
    TopRight,
    BottomLeft,
    BottomRight,
}

/// Side of a room that a plain wall tile closes off, or an internal corner.
#[derive(Clone, Copy, Debug, PartialEq, Eq, Structural)]
pub enum WallType {
    Left,
    Right,
    Top,
    Bottom,
    InternalCorner(CornerType),
}

/// Side on which a door tile joins a room to a tunnel.
#[derive(Clone, Copy, Debug, PartialEq, Eq, Structural)]
pub enum DoorType {
    Left,
    Right,
    Top,
    Bottom,
}

/// Classification of one grid cell.
///
/// `Empty` is untouched void, `Floor` is room interior, `Path` is a carved
/// tunnel cell; `Wall` and `Door` are produced by the classification passes
/// from the local `Empty`/`Floor`/`Path` neighborhood alone.
#[derive(Clone, Copy, Debug, PartialEq, Eq, Structural)]
pub enum TileType {
    Empty,
    Wall(WallType),
    Floor,
    Path,
    Door(DoorType),
}

} // verus!
