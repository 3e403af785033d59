//! Positions: an angle with a hemisphere, and a latitude/longitude pair.
//!
//! The derived orderings compare the angle first and the hemisphere second:
//! a nominal order, not a geographic one.
use crate::measure::Angle;
use vstd::prelude::*;

verus! {

#[derive(Debug, Copy, Clone, PartialEq, Eq, PartialOrd, Ord, Hash, Structural)]
pub enum LatitudeHemisphere {
    NORTH,
    SOUTH,
}

impl LatitudeHemisphere {
    /// The hemisphere's letter.
    pub fn short(&self) -> (r: char)
        ensures
            r == (if *self == LatitudeHemisphere::NORTH { 'N' } else { 'S' }),
    {
        match self {
            LatitudeHemisphere::NORTH => 'N',
            LatitudeHemisphere::SOUTH => 'S',
        }
    }
}

#[derive(Debug, Copy, Clone, PartialEq, Eq, PartialOrd, Ord, Hash, Structural)]
pub struct Latitude {
    pub angle: Angle,
    pub hemisphere: LatitudeHemisphere,
}

#[derive(Debug, Copy, Clone, PartialEq, Eq, PartialOrd, Ord, Hash, Structural)]
pub enum LongitudeHemisphere {
    EAST,
    WEST,
}

impl LongitudeHemisphere {
    /// The hemisphere's letter.
    pub fn short(&self) -> (r: char)
        ensures
            r == (if *self == LongitudeHemisphere::EAST { 'E' } else { 'W' }),
    {
        match self {
            LongitudeHemisphere::EAST => 'E',
            LongitudeHemisphere::WEST => 'W',
        }
    }
}

#[derive(Debug, Copy, Clone, PartialEq, Eq, PartialOrd, Ord, Hash, Structural)]
pub struct Longitude {
    pub angle: Angle,
    pub hemisphere: LongitudeHemisphere,
}

#[derive(Debug, Copy, Clone, PartialEq, Eq, PartialOrd, Ord, Hash, Structural)]
pub struct Coordinate {
    pub latitude: Latitude,
    pub longitude: Longitude,
}

} // verus!
