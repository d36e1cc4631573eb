use geoprop::decibels::Decibels;
use geoprop::error::GeopropError;
use geoprop::model::{Climate, Link, ModeVariability, Polarization, Settings};
use geoprop::parallel::all_or_first_error;
use geoprop::path::{p2p, path, truncations};
use geoprop::profile::Profile;
use std::sync::Mutex;

fn db(value: f64) -> Decibels {
    Decibels::from_bits(value.to_bits())
}

fn profile(samples: usize) -> Profile<f32> {
    let distances: Vec<f32> = (0..samples).map(|i| i as f32 * 30.0).collect();
    let terrain: Vec<f32> = (0..samples).map(|i| 1000.0 + (i * i) as f32).collect();
    Profile::new(distances, terrain, 12.0, 3.0).unwrap()
}

/// A model that is easy to check: the loss grows with the number of
/// samples and with the last elevation.
fn toy_model(link: &Link<f32>, terrain: &Vec<f32>, samples: usize) -> Option<Decibels> {
    let last = terrain[samples - 1] as f64;
    Some(db(link.step_size_m as f64 * samples as f64 + last / 1000.0))
}

#[test]
fn point_to_point_settings_are_fixed() {
    let settings = Settings::point_to_point();
    assert_eq!(settings.climate, Climate::Desert);
    assert_eq!(settings.refractivity, 301);
    assert_eq!(settings.polarization, Polarization::Vertical);
    assert_eq!(settings.permittivity, 15);
    assert_eq!(settings.conductivity_ms, 5);
    assert_eq!(settings.variability, ModeVariability::Accidental);
    assert_eq!(settings.time, 50);
    assert_eq!(settings.location, 50);
    assert_eq!(settings.situation, 50);
    assert_eq!(settings.conductivity_ms as f64 / 1000.0, 0.005);
}

#[test]
fn coverage_settings_are_fixed() {
    let settings = Settings::coverage();
    assert_eq!(
        settings,
        Settings {
            climate: Climate::ContinentalTemperate,
            refractivity: 301,
            polarization: Polarization::Vertical,
            permittivity: 15,
            conductivity_ms: 5,
            variability: ModeVariability::Mobile,
            time: 95,
            location: 95,
            situation: 95,
        }
    );
}

#[test]
fn p2p_asks_the_model_about_the_whole_profile() {
    let seen = Mutex::new(Vec::new());
    let model = |link: &Link<f32>, terrain: &Vec<f32>, samples: usize| {
        seen.lock().unwrap().push((*link, terrain.clone(), samples));
        Some(db(131.25))
    };
    let profile = profile(5);
    let loss = p2p(&profile, 9.0e8, model);
    assert_eq!(loss, Ok(db(131.25)));
    let seen = seen.into_inner().unwrap();
    assert_eq!(seen.len(), 1);
    let (link, terrain, samples) = &seen[0];
    assert_eq!(
        *link,
        Link {
            tx_height_m: 12.0,
            rx_height_m: 3.0,
            step_size_m: 30.0,
            frequency_hz: 9.0e8,
            settings: Settings::point_to_point(),
        }
    );
    assert_eq!(*terrain, vec![1000.0, 1001.0, 1004.0, 1009.0, 1016.0]);
    assert_eq!(*samples, 5);
}

#[test]
fn p2p_returns_what_the_model_answers() {
    let loss = p2p(&profile(4), 9.0e8, toy_model).unwrap();
    assert_eq!(f64::from_bits(loss.to_bits()), 30.0 * 4.0 + 1.009);
}

#[test]
fn p2p_fails_where_the_model_refuses() {
    let refuse = |_: &Link<f32>, _: &Vec<f32>, _: usize| None;
    assert_eq!(p2p(&profile(4), -1.0, refuse), Err(GeopropError::InvalidPropagationInput));
}

#[test]
fn p2p_needs_two_samples_and_does_not_ask() {
    let model = |_: &Link<f32>, _: &Vec<f32>, _: usize| -> Option<Decibels> {
        panic!("asked about a single sample")
    };
    assert_eq!(p2p(&profile(1), 9.0e8, model), Err(GeopropError::InvalidPropagationInput));
}

#[test]
fn path_has_one_loss_for_each_truncation() {
    let losses = path(&profile(6), 9.0e8, toy_model).unwrap();
    let values: Vec<f64> = losses.iter().map(|loss| f64::from_bits(loss.to_bits())).collect();
    assert_eq!(
        values,
        vec![
            60.0 + 1.001,
            90.0 + 1.004,
            120.0 + 1.009,
            150.0 + 1.016,
            180.0 + 1.025,
        ]
    );
}

#[test]
fn path_is_one_shorter_than_the_profile() {
    for samples in 1..40 {
        let losses = path(&profile(samples), 9.0e8, toy_model).unwrap();
        assert_eq!(losses.len(), samples - 1);
    }
}

#[test]
fn path_ends_with_the_loss_between_the_ends() {
    for samples in 2..40 {
        let profile = profile(samples);
        let losses = path(&profile, 4.0e8, toy_model).unwrap();
        let whole = p2p(&profile, 4.0e8, toy_model).unwrap();
        assert_eq!(*losses.last().unwrap(), whole);
    }
}

#[test]
fn path_asks_with_growing_truncations_of_one_link() {
    let seen = Mutex::new(Vec::new());
    let model = |link: &Link<f32>, terrain: &Vec<f32>, samples: usize| {
        seen.lock().unwrap().push((*link, terrain.len(), samples));
        Some(db(samples as f64))
    };
    let profile = profile(5);
    let losses = path(&profile, 9.0e8, model).unwrap();
    assert_eq!(losses, vec![db(2.0), db(3.0), db(4.0), db(5.0)]);
    let link = Link {
        tx_height_m: 12.0,
        rx_height_m: 3.0,
        step_size_m: 30.0,
        frequency_hz: 9.0e8,
        settings: Settings::point_to_point(),
    };
    let mut seen = seen.into_inner().unwrap();
    seen.sort_by_key(|asked| asked.2);
    assert_eq!(seen, vec![(link, 5, 2), (link, 5, 3), (link, 5, 4), (link, 5, 5)]);
}

#[test]
fn path_of_a_single_sample_is_empty() {
    let model = |_: &Link<f32>, _: &Vec<f32>, _: usize| -> Option<Decibels> {
        panic!("asked about a single sample")
    };
    assert_eq!(path(&profile(1), 9.0e8, model), Ok(Vec::new()));
}

#[test]
fn path_fails_as_a_whole_where_one_truncation_fails() {
    for refused in 2..=9 {
        let model = |_: &Link<f32>, _: &Vec<f32>, samples: usize| {
            if samples == refused {
                None
            } else {
                Some(db(1.0))
            }
        };
        assert_eq!(path(&profile(9), 9.0e8, model), Err(GeopropError::InvalidPropagationInput));
    }
}

#[test]
fn path_never_asks_about_fewer_than_two_samples() {
    let model = |_: &Link<f32>, terrain: &Vec<f32>, samples: usize| {
        assert!(2 <= samples && samples <= terrain.len());
        Some(db(1.0))
    };
    for samples in 1..30 {
        assert_eq!(path(&profile(samples), 9.0e8, model).unwrap().len(), samples - 1);
    }
}

#[test]
fn profile_needs_a_sample_and_a_distance_for_each() {
    assert_eq!(Profile::<f32>::new(vec![], vec![], 1.0, 1.0), None);
    assert_eq!(Profile::new(vec![0.0, 1.0], vec![5.0_f32], 1.0, 1.0), None);
    assert_eq!(Profile::new(vec![0.0], vec![5.0_f32, 6.0], 1.0, 1.0), None);
    let single = Profile::new(vec![0.0], vec![5.0_f32], 1.0, 2.0).unwrap();
    assert_eq!(
        single,
        Profile { distances_m: vec![0.0], terrain_elev_m: vec![5.0], start_alt: 1.0, end_alt: 2.0 }
    );
    assert_eq!(single.len(), 1);
    assert!(single.is_degenerate());
    assert_eq!(single.end_elevation_m(), 5.0);
    let longer = profile(3);
    assert_eq!(longer.len(), 3);
    assert!(!longer.is_degenerate());
    assert_eq!(longer.end_elevation_m(), 1004.0);
}

#[test]
fn errors_say_what_went_wrong() {
    assert_eq!(
        GeopropError::InvalidResolution.message(),
        "grid resolution outside the supported range"
    );
    assert_eq!(GeopropError::MissingTerrainData.message(), "no elevation data for a sampled point");
    assert_eq!(
        GeopropError::InvalidPropagationInput.message(),
        "propagation model input outside its valid domain"
    );
}

#[test]
fn truncations_run_from_two_samples_to_all() {
    assert_eq!(truncations(0), Vec::<usize>::new());
    assert_eq!(truncations(1), Vec::<usize>::new());
    assert_eq!(truncations(2), vec![2]);
    assert_eq!(truncations(6), vec![2, 3, 4, 5, 6]);
}

#[test]
fn outcomes_that_all_succeeded_give_their_values() {
    assert_eq!(all_or_first_error::<u8>(&vec![]), Ok(vec![]));
    assert_eq!(all_or_first_error(&vec![Ok(3_u8), Ok(1), Ok(2)]), Ok(vec![3, 1, 2]));
}

#[test]
fn first_failed_outcome_is_the_error() {
    let outcomes = vec![
        Ok(3_u8),
        Err(GeopropError::InvalidPropagationInput),
        Ok(2),
        Err(GeopropError::MissingTerrainData),
    ];
    assert_eq!(all_or_first_error(&outcomes), Err(GeopropError::InvalidPropagationInput));
    let outcomes = vec![Err(GeopropError::MissingTerrainData), Ok(3_u8)];
    assert_eq!(all_or_first_error(&outcomes), Err(GeopropError::MissingTerrainData));
}
