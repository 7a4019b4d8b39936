use vstd::prelude::*;

verus! {

/// Side of one grid cell in pixels.
pub const BLOCK_SIZE: u32 = 25;

/// One non-negative grid axis value.
#[derive(Copy, Clone, Debug, PartialEq, Eq, Structural)]
pub struct Coord(pub u32);

impl Coord {
    pub fn new(coord: u32) -> (r: Coord)
        ensures
            r.0 == coord,
    {
        Coord(coord)
    }

    /// The raw axis value.
    pub fn value(self) -> (r: u32)
        ensures
            r == self.0,
    {
        self.0
    }

    /// `self + rhs`, or `None` when the sum does not fit in a coordinate.
    pub fn checked_add(self, rhs: u32) -> (r: Option<Coord>)
        ensures
            self.0 + rhs <= u32::MAX ==> r == Some(Coord((self.0 + rhs) as u32)),
            self.0 + rhs > u32::MAX ==> r is None,
    {
        match self.0.checked_add(rhs) {
            Some(v) => Some(Coord(v)),
            None => None,
        }
    }

    /// `self - rhs`, or `None` when the difference would go below zero.
    pub fn checked_sub(self, rhs: u32) -> (r: Option<Coord>)
        ensures
            rhs <= self.0 ==> r == Some(Coord((self.0 - rhs) as u32)),
            rhs > self.0 ==> r is None,
    {
        if rhs <= self.0 {
            Some(Coord(self.0 - rhs))
        } else {
            None
        }
    }

    /// The value as an index.
    pub fn index(self) -> (r: usize)
        ensures
            r == self.0,
    {
        self.0 as usize
    }
}

/// Pixel offset of a coordinate, saturating at `u32::MAX`.
pub fn to_coord_u32(coord: Coord) -> (r: u32)
    ensures
        coord.0 * BLOCK_SIZE <= u32::MAX ==> r == coord.0 * BLOCK_SIZE,
        coord.0 * BLOCK_SIZE > u32::MAX ==> r == u32::MAX,
{
    match coord.0.checked_mul(BLOCK_SIZE) {
        Some(v) => v,
        None => u32::MAX,
    }
}

} // verus!
