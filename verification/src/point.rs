//! Geographic points.

use vstd::prelude::*;

verus! {

/// A place on the globe: latitude and longitude in degrees, altitude in
/// metres. The library moves the three values about and never computes
/// with them, so it leaves their number type to the caller.
#[derive(Clone, Copy, Debug, PartialEq)]
pub struct Point<T> {
    pub lat: T,
    pub lon: T,
    pub alt: T,
}

impl<T> Point<T> {
    /// The point with the given coordinates.
    pub fn new(lat: T, lon: T, alt: T) -> (out: Point<T>)
        ensures
            out == (Point { lat, lon, alt }),
    {
        Point { lat, lon, alt }
    }
}

} // verus!
