//! Terrain profiles: elevation samples along a straight path.

use vstd::prelude::*;
use crate::point::Point;

verus! {

/// The longest step between two samples that is asked for, in metres.
pub const MAX_STEP_M: u32 = 90;

/// What a terrain source is asked: the profile from `start`, with the
/// antenna at the altitude of `start`, to the centre of the cell
/// `end_cell`, with the antenna at `end_alt`, in steps of `max_step_m`
/// metres at most.
#[derive(Clone, Copy, Debug, PartialEq)]
pub struct ProfileRequest<T> {
    pub start: Point<T>,
    pub end_cell: u64,
    pub end_alt: T,
    pub max_step_m: u32,
}

/// A terrain source that may be asked for any profile and hands out
/// profiles with a sample in them. It answers `None` where it has no
/// elevation for a point on the way.
pub open spec fn builds_profiles<T: Copy, B: Fn(&ProfileRequest<T>) -> Option<Profile<T>>>(
    build: B,
) -> bool {
    &&& forall|request: ProfileRequest<T>| call_requires(build, (&request,))
    &&& forall|request: ProfileRequest<T>, profile: Profile<T>|
        call_ensures(build, (&request,), Some(profile)) ==> profile.wf()
}

/// Elevations sampled at even steps between two points, with the antenna
/// heights at both ends. Sample `i` lies `distances_m[i]` metres from the
/// start and the terrain there is `terrain_elev_m[i]` metres high.
#[derive(Clone, Debug, PartialEq)]
pub struct Profile<T> {
    pub distances_m: Vec<T>,
    pub terrain_elev_m: Vec<T>,
    pub start_alt: T,
    pub end_alt: T,
}

/// A terrain source that gives one answer to one request.
pub open spec fn builds_one<T: Copy, B: Fn(&ProfileRequest<T>) -> Option<Profile<T>>>(
    build: B,
) -> bool {
    forall|request: ProfileRequest<T>, a: Option<Profile<T>>, b: Option<Profile<T>>|
        call_ensures(build, (&request,), a) && call_ensures(build, (&request,), b) ==> a == b
}

impl<T: Copy> Profile<T> {
    /// A profile has at least one sample, and a distance for each.
    pub open spec fn wf(self) -> bool {
        &&& self.terrain_elev_m@.len() >= 1
        &&& self.distances_m@.len() == self.terrain_elev_m@.len()
    }

    /// The number of samples.
    pub open spec fn samples(self) -> nat {
        self.terrain_elev_m@.len()
    }

    /// One sample only: start and end fell onto the same sample, and there
    /// is no path to speak of.
    pub open spec fn degenerate(self) -> bool {
        self.samples() <= 1
    }

    /// The distance from one sample to the next.
    pub open spec fn step(self) -> T
        recommends
            self.wf(),
            !self.degenerate(),
    {
        self.distances_m@[1]
    }

    /// The terrain under the far end.
    pub open spec fn last_elevation(self) -> T
        recommends
            self.wf(),
    {
        self.terrain_elev_m@[self.terrain_elev_m@.len() - 1]
    }

    /// Puts a profile together, or returns `None` where there is no sample
    /// or the two sequences differ in length.
    pub fn new(distances_m: Vec<T>, terrain_elev_m: Vec<T>, start_alt: T, end_alt: T) -> (out:
        Option<Profile<T>>)
        ensures
            out is Some <==> terrain_elev_m@.len() >= 1 && distances_m@.len()
                == terrain_elev_m@.len(),
            out matches Some(profile) ==> profile.wf() && profile == (Profile {
                distances_m,
                terrain_elev_m,
                start_alt,
                end_alt,
            }),
    {
        if terrain_elev_m.len() >= 1 && distances_m.len() == terrain_elev_m.len() {
            Some(Profile { distances_m, terrain_elev_m, start_alt, end_alt })
        } else {
            None
        }
    }

    /// The number of samples.
    pub fn len(&self) -> (out: usize)
        ensures
            out == self.samples(),
    {
        self.terrain_elev_m.len()
    }

    /// Whether the profile has one sample only.
    pub fn is_degenerate(&self) -> (out: bool)
        ensures
            out == self.degenerate(),
    {
        self.terrain_elev_m.len() <= 1
    }

    /// The terrain under the far end.
    pub fn end_elevation_m(&self) -> (out: T)
        requires
            self.wf(),
        ensures
            out == self.last_elevation(),
    {
        self.terrain_elev_m[self.terrain_elev_m.len() - 1]
    }
}

} // verus!
