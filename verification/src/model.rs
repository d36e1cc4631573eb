//! What the propagation model is asked: its settings and the link it is to
//! judge.

use vstd::prelude::*;
use crate::decibels::Decibels;

verus! {

/// The radio climate of the region.
#[derive(Clone, Copy, Debug, PartialEq, Eq, Structural)]
pub enum Climate {
    Equatorial,
    ContinentalSubtropical,
    MaritimeSubtropical,
    Desert,
    ContinentalTemperate,
    MaritimeTemperateOverLand,
    MaritimeTemperateOverSea,
}

/// The polarization of the antennas.
#[derive(Clone, Copy, Debug, PartialEq, Eq, Structural)]
pub enum Polarization {
    Horizontal,
    Vertical,
}

/// Which variabilities the percentages speak of.
#[derive(Clone, Copy, Debug, PartialEq, Eq, Structural)]
pub enum ModeVariability {
    SingleMessage,
    Accidental,
    Mobile,
    Broadcast,
}

/// Everything the model is told besides the link itself.
#[derive(Clone, Copy, Debug, PartialEq, Eq, Structural)]
pub struct Settings {
    pub climate: Climate,
    /// Surface refractivity, in N-units.
    pub refractivity: u16,
    pub polarization: Polarization,
    /// Relative permittivity of the ground.
    pub permittivity: u16,
    /// Conductivity of the ground, in millisiemens per metre.
    pub conductivity_ms: u16,
    pub variability: ModeVariability,
    /// Time variability, in percent.
    pub time: u8,
    /// Location variability, in percent.
    pub location: u8,
    /// Situation variability, in percent.
    pub situation: u8,
}

/// The settings under which coverage is estimated.
pub open spec fn coverage_settings() -> Settings {
    Settings {
        climate: Climate::ContinentalTemperate,
        refractivity: 301,
        polarization: Polarization::Vertical,
        permittivity: 15,
        conductivity_ms: 5,
        variability: ModeVariability::Mobile,
        time: 95,
        location: 95,
        situation: 95,
    }
}

/// The settings under which a single path is judged.
pub open spec fn path_settings() -> Settings {
    Settings {
        climate: Climate::Desert,
        refractivity: 301,
        polarization: Polarization::Vertical,
        permittivity: 15,
        conductivity_ms: 5,
        variability: ModeVariability::Accidental,
        time: 50,
        location: 50,
        situation: 50,
    }
}

impl Settings {
    /// The settings under which coverage is estimated.
    pub fn coverage() -> (out: Settings)
        ensures
            out == coverage_settings(),
    {
        Settings {
            climate: Climate::ContinentalTemperate,
            refractivity: 301,
            polarization: Polarization::Vertical,
            permittivity: 15,
            conductivity_ms: 5,
            variability: ModeVariability::Mobile,
            time: 95,
            location: 95,
            situation: 95,
        }
    }

    /// The settings under which a single path is judged.
    pub fn point_to_point() -> (out: Settings)
        ensures
            out == path_settings(),
    {
        Settings {
            climate: Climate::Desert,
            refractivity: 301,
            polarization: Polarization::Vertical,
            permittivity: 15,
            conductivity_ms: 5,
            variability: ModeVariability::Accidental,
            time: 50,
            location: 50,
            situation: 50,
        }
    }
}

/// A radio link as the model sees it. Heights, step and frequency are of
/// the caller's number type: the library hands them on as it received
/// them.
#[derive(Clone, Copy, Debug, PartialEq)]
pub struct Link<T> {
    /// Height of the transmitting antenna, in metres.
    pub tx_height_m: T,
    /// Height of the receiving antenna, in metres.
    pub rx_height_m: T,
    /// Distance between two terrain samples, in metres.
    pub step_size_m: T,
    /// Carrier frequency, in hertz.
    pub frequency_hz: T,
    pub settings: Settings,
}

/// What a model may have answered when asked about `link` over the first
/// `samples` elevations of `terrain`. A model answers with a loss, or with
/// `None` where the input lies outside its domain.
pub open spec fn answered<T, M: Fn(&Link<T>, &Vec<T>, usize) -> Option<Decibels>>(
    model: M,
    link: Link<T>,
    terrain: Vec<T>,
    samples: nat,
    answer: Option<Decibels>,
) -> bool {
    call_ensures(model, (&link, &terrain, samples as usize), answer)
}

/// A model that may be asked about every link of two samples or more.
pub open spec fn accepts_links<T, M: Fn(&Link<T>, &Vec<T>, usize) -> Option<Decibels>>(
    model: M,
) -> bool {
    forall|link: Link<T>, terrain: Vec<T>, samples: usize|
        2 <= samples <= terrain@.len() ==> call_requires(model, (&link, &terrain, samples))
}

/// A model that gives one answer to one question.
pub open spec fn single_valued<T, M: Fn(&Link<T>, &Vec<T>, usize) -> Option<Decibels>>(
    model: M,
) -> bool {
    forall|link: Link<T>, terrain: Vec<T>, samples: usize, a: Option<Decibels>, b: Option<Decibels>|
        call_ensures(model, (&link, &terrain, samples), a) && call_ensures(
            model,
            (&link, &terrain, samples),
            b,
        ) ==> a == b
}

} // verus!
