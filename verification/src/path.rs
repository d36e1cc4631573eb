//! Loss over one path: to its far end, and to every sample on the way.

use vstd::prelude::*;
use crate::decibels::Decibels;
use crate::error::GeopropError;
use crate::model::{accepts_links, answered, path_settings, single_valued, Link, Settings};
use crate::parallel::{all_or_first_error, fails_first_at, par_map};
use crate::profile::Profile;

verus! {

/// The link that a profile describes at the given frequency.
pub open spec fn path_link<T: Copy>(profile: Profile<T>, freq: T) -> Link<T> {
    Link {
        tx_height_m: profile.start_alt,
        rx_height_m: profile.end_alt,
        step_size_m: profile.step(),
        frequency_hz: freq,
        settings: path_settings(),
    }
}

/// What `p2p` may return: the model's answer for the whole profile, or,
/// without asking, an error where the profile has no second sample.
pub open spec fn p2p_outcome<T: Copy, M: Fn(&Link<T>, &Vec<T>, usize) -> Option<Decibels>>(
    model: M,
    profile: Profile<T>,
    freq: T,
    out: Result<Decibels, GeopropError>,
) -> bool {
    if profile.degenerate() {
        out == Err::<Decibels, GeopropError>(GeopropError::InvalidPropagationInput)
    } else {
        match out {
            Ok(loss) => answered(
                model,
                path_link(profile, freq),
                profile.terrain_elev_m,
                profile.samples(),
                Some(loss),
            ),
            Err(e) => e == GeopropError::InvalidPropagationInput && answered(
                model,
                path_link(profile, freq),
                profile.terrain_elev_m,
                profile.samples(),
                None,
            ),
        }
    }
}

/// Returns the signal loss between the two ends of a profile.
pub fn p2p<T: Copy, M: Fn(&Link<T>, &Vec<T>, usize) -> Option<Decibels>>(
    profile: &Profile<T>,
    freq: T,
    model: M,
) -> (out: Result<Decibels, GeopropError>)
    requires
        profile.wf(),
        accepts_links(model),
    ensures
        p2p_outcome(model, *profile, freq, out),
{
    if profile.is_degenerate() {
        return Err(GeopropError::InvalidPropagationInput);
    }
    let link = Link {
        tx_height_m: profile.start_alt,
        rx_height_m: profile.end_alt,
        step_size_m: profile.distances_m[1],
        frequency_hz: freq,
        settings: Settings::point_to_point(),
    };
    match model(&link, &profile.terrain_elev_m, profile.terrain_elev_m.len()) {
        Some(loss) => Ok(loss),
        None => Err(GeopropError::InvalidPropagationInput),
    }
}

/// `losses[i]` is an answer of the model for the link cut off after sample
/// `i + 1`, for every `i`.
pub open spec fn truncation_losses<T: Copy, M: Fn(&Link<T>, &Vec<T>, usize) -> Option<Decibels>>(
    model: M,
    profile: Profile<T>,
    freq: T,
    losses: Seq<Decibels>,
) -> bool {
    forall|i: int|
        0 <= i < losses.len() ==> answered(
            model,
            path_link(profile, freq),
            profile.terrain_elev_m,
            (i + 2) as nat,
            Some(#[trigger] losses[i]),
        )
}

/// What `path` may return: an answer of the model for every truncation of
/// the profile, from the one that ends at the second sample to the whole,
/// or an error where the model refused one of them after answering all
/// those before it.
pub open spec fn path_outcome<T: Copy, M: Fn(&Link<T>, &Vec<T>, usize) -> Option<Decibels>>(
    model: M,
    profile: Profile<T>,
    freq: T,
    out: Result<Seq<Decibels>, GeopropError>,
) -> bool {
    match out {
        Ok(losses) => {
            &&& losses.len() == profile.samples() - 1
            &&& truncation_losses(model, profile, freq, losses)
        },
        Err(e) => {
            &&& e == GeopropError::InvalidPropagationInput
            &&& exists|before: Seq<Decibels>|
                {
                    &&& before.len() < profile.samples() - 1
                    &&& #[trigger] truncation_losses(model, profile, freq, before)
                    &&& answered(
                        model,
                        path_link(profile, freq),
                        profile.terrain_elev_m,
                        before.len() + 2,
                        None,
                    )
                }
        },
    }
}

/// The numbers of samples of the truncations of a profile of `samples`
/// samples: two, three and so on up to all of them.
pub fn truncations(samples: usize) -> (out: Vec<usize>)
    ensures
        out@.len() == if samples >= 1 {
            samples - 1
        } else {
            0
        },
        forall|i: int| 0 <= i < out@.len() ==> #[trigger] out@[i] == i + 2,
{
    let mut out: Vec<usize> = Vec::new();
    if samples == 0 {
        return out;
    }
    let mut end_idx: usize = 1;
    while end_idx < samples
        invariant
            1 <= end_idx <= samples,
            out@.len() == end_idx - 1,
            forall|i: int| 0 <= i < out@.len() ==> #[trigger] out@[i] == i + 2,
        decreases samples - end_idx,
    {
        out.push(end_idx + 1);
        end_idx = end_idx + 1;
    }
    out
}

/// Returns the signal loss from the start of a profile to each of its
/// samples but the first, as if the receiver stood there. The truncations
/// are judged side by side.
pub fn path<T: Copy + Send + Sync, M: Fn(&Link<T>, &Vec<T>, usize) -> Option<Decibels> + Sync>(
    profile: &Profile<T>,
    freq: T,
    model: M,
) -> (out: Result<Vec<Decibels>, GeopropError>)
    requires
        profile.wf(),
        accepts_links(model),
    ensures
        match out {
            Ok(losses) => path_outcome(model, *profile, freq, Ok(losses@)),
            Err(e) => path_outcome(model, *profile, freq, Err(e)),
        },
{
    let samples = profile.terrain_elev_m.len();
    if samples <= 1 {
        return Ok(Vec::new());
    }
    let link = Link {
        tx_height_m: profile.start_alt,
        rx_height_m: profile.end_alt,
        step_size_m: profile.distances_m[1],
        frequency_hz: freq,
        settings: Settings::point_to_point(),
    };
    let ends = truncations(samples);
    let asked = &model;
    let judge = |end: usize| -> (out: Result<Decibels, GeopropError>)
        requires
            2 <= end <= profile.terrain_elev_m@.len(),
        ensures
            match out {
                Ok(loss) => answered(*asked, link, profile.terrain_elev_m, end as nat, Some(loss)),
                Err(e) => e == GeopropError::InvalidPropagationInput && answered(
                    *asked,
                    link,
                    profile.terrain_elev_m,
                    end as nat,
                    None,
                ),
            },
        {
            match asked(&link, &profile.terrain_elev_m, end) {
                Some(loss) => Ok(loss),
                None => Err(GeopropError::InvalidPropagationInput),
            }
        };
    let outcomes = par_map(&ends, &judge);
    let out = all_or_first_error(&outcomes);
    proof {
        assert forall|i: int| 0 <= i < ends@.len() implies call_ensures(
            judge,
            (ends@[i],),
            #[trigger] outcomes@[i],
        ) by {}
        match out {
            Ok(_) => {},
            Err(e) => {
                let at = choose|at: int| #[trigger]
                    fails_first_at(outcomes@, at) && outcomes@[at] == Err::<
                        Decibels,
                        GeopropError,
                    >(e);
                let before = Seq::new(at as nat, |j: int| outcomes@[j]->Ok_0);
                assert forall|j: int| 0 <= j < before.len() implies answered(
                    model,
                    path_link(*profile, freq),
                    profile.terrain_elev_m,
                    (j + 2) as nat,
                    Some(#[trigger] before[j]),
                ) by {
                    assert(outcomes@[j] is Ok);
                    assert(call_ensures(judge, (ends@[j],), outcomes@[j]));
                }
                assert(call_ensures(judge, (ends@[at],), outcomes@[at]));
                assert(truncation_losses(model, *profile, freq, before));
            },
        }
    }
    out
}

/// Of a model that gives one answer to one question, the losses along a
/// path are one fewer than the samples, and the last of them is the loss
/// between the two ends of the profile.
pub proof fn lemma_path_ends_with_p2p<T: Copy, M: Fn(&Link<T>, &Vec<T>, usize) -> Option<Decibels>>(
    model: M,
    profile: Profile<T>,
    freq: T,
    losses: Seq<Decibels>,
    loss: Decibels,
)
    requires
        profile.wf(),
        !profile.degenerate(),
        single_valued(model),
        path_outcome(model, profile, freq, Ok(losses)),
        p2p_outcome(model, profile, freq, Ok(loss)),
    ensures
        losses.len() == profile.samples() - 1,
        losses.last() == loss,
{
    let last = losses.len() - 1;
    assert(answered(
        model,
        path_link(profile, freq),
        profile.terrain_elev_m,
        (last + 2) as nat,
        Some(losses[last]),
    ));
}

} // verus!
