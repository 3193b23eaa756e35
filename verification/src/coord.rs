//! Grid coordinates, and the key under which the board stores a cell.

use vstd::prelude::*;

verus! {

/// A grid coordinate: column and row.
pub type Coord = (i32, i32);

/// The point of the plane that a coordinate names.
pub open spec fn point(c: Coord) -> (int, int) {
    (c.0 as int, c.1 as int)
}

/// Whether a point of the plane can be written as a `Coord`.
pub open spec fn representable(p: (int, int)) -> bool {
    &&& i32::MIN <= p.0 <= i32::MAX
    &&& i32::MIN <= p.1 <= i32::MAX
}

/// Whether `p` lies at least `margin` steps inside the representable square,
/// on every side.
pub open spec fn inside(p: (int, int), margin: int) -> bool {
    &&& i32::MIN + margin <= p.0 <= i32::MAX - margin
    &&& i32::MIN + margin <= p.1 <= i32::MAX - margin
}

/// The key of a point: its column and row, each shifted to be non-negative,
/// side by side in one 64-bit number.
pub open spec fn key_of(p: (int, int)) -> int {
    (p.0 + 0x8000_0000) * 0x1_0000_0000 + (p.1 + 0x8000_0000)
}

/// The point that a key stands for.
pub open spec fn point_of(key: int) -> (int, int) {
    (key / 0x1_0000_0000 - 0x8000_0000, key % 0x1_0000_0000 - 0x8000_0000)
}

/// A representable point has a 64-bit key, from which the point is had
/// again: no two of them share a key.
pub proof fn lemma_key_round_trip(p: (int, int))
    requires
        representable(p),
    ensures
        0 <= key_of(p) <= u64::MAX,
        point_of(key_of(p)) == p,
{
}

/// The key of a coordinate.
pub(crate) fn pack(c: Coord) -> (key: u64)
    ensures
        key == key_of(point(c)),
{
    let column: u64 = (c.0 as i64 + 0x8000_0000) as u64;
    let row: u64 = (c.1 as i64 + 0x8000_0000) as u64;
    column * 0x1_0000_0000 + row
}

/// The coordinate that a key stands for.
pub(crate) fn unpack(key: u64) -> (c: Coord)
    ensures
        point(c) == point_of(key as int),
        key_of(point(c)) == key,
{
    let column: u64 = key / 0x1_0000_0000;
    let row: u64 = key % 0x1_0000_0000;
    ((column as i64 - 0x8000_0000) as i32, (row as i64 - 0x8000_0000) as i32)
}

} // verus!
