//! Coverage around a transmitter: the loss to every cell of the grid
//! within a radius.

use vstd::prelude::*;
use crate::decibels::Decibels;
use crate::error::GeopropError;
use crate::grid::{
    decides_rings, disk, disk_cells, included_rings, lemma_disk_no_duplicates,
    lemma_ring_count_unique, ring_cells, ring_count_of, rings_disjoint,
};
use crate::model::{accepts_links, answered, coverage_settings, single_valued, Link, Settings};
use crate::parallel::{all_or_first_error, fails_first_at, par_map};
use crate::point::Point;
use crate::profile::{builds_one, builds_profiles, Profile, ProfileRequest, MAX_STEP_M};

verus! {

/// The finest resolution of the grid.
pub const MAX_RESOLUTION: u8 = 15;

/// The profile that is asked for to judge the link from `center` to
/// `cell`.
pub open spec fn request_for<T>(center: Point<T>, cell: u64, rx_alt: T) -> ProfileRequest<T> {
    ProfileRequest { start: center, end_cell: cell, end_alt: rx_alt, max_step_m: 90 }
}

/// The link from the transmitter at `center` over `profile` to a receiver
/// at height `rx_alt`.
pub open spec fn coverage_link<T: Copy>(
    center: Point<T>,
    rx_alt: T,
    freq: T,
    profile: Profile<T>,
) -> Link<T> {
    Link {
        tx_height_m: center.alt,
        rx_height_m: rx_alt,
        step_size_m: profile.step(),
        frequency_hz: freq,
        settings: coverage_settings(),
    }
}

/// What may come of a cell once its profile is there. A profile of one
/// sample gives no loss and the model is not asked; any other gives the
/// model's answer for the whole profile, or an error where the model
/// refuses. Either way the elevation is that of the far end.
pub open spec fn profile_outcome<T: Copy, M: Fn(&Link<T>, &Vec<T>, usize) -> Option<Decibels>>(
    model: M,
    center: Point<T>,
    freq: T,
    rx_alt: T,
    cell: u64,
    profile: Profile<T>,
    out: Result<(u64, T, Decibels), GeopropError>,
) -> bool {
    if profile.degenerate() {
        out == Ok::<(u64, T, Decibels), GeopropError>(
            (cell, profile.last_elevation(), Decibels { bits: 0 }),
        )
    } else {
        match out {
            Ok(entry) => {
                &&& entry.0 == cell
                &&& entry.1 == profile.last_elevation()
                &&& answered(
                    model,
                    coverage_link(center, rx_alt, freq, profile),
                    profile.terrain_elev_m,
                    profile.samples(),
                    Some(entry.2),
                )
            },
            Err(e) => {
                &&& e == GeopropError::InvalidPropagationInput
                &&& answered(
                    model,
                    coverage_link(center, rx_alt, freq, profile),
                    profile.terrain_elev_m,
                    profile.samples(),
                    None,
                )
            },
        }
    }
}

/// Judges the link to `cell` over a profile that is already there.
pub fn cell_loss<T: Copy, M: Fn(&Link<T>, &Vec<T>, usize) -> Option<Decibels>>(
    center: &Point<T>,
    freq: T,
    rx_alt: T,
    cell: u64,
    profile: &Profile<T>,
    model: &M,
) -> (out: Result<(u64, T, Decibels), GeopropError>)
    requires
        profile.wf(),
        accepts_links(*model),
    ensures
        profile_outcome(*model, *center, freq, rx_alt, cell, *profile, out),
{
    let elevation = profile.end_elevation_m();
    if profile.is_degenerate() {
        return Ok((cell, elevation, Decibels::zero()));
    }
    let link = Link {
        tx_height_m: center.alt,
        rx_height_m: rx_alt,
        step_size_m: profile.distances_m[1],
        frequency_hz: freq,
        settings: Settings::coverage(),
    };
    match model(&link, &profile.terrain_elev_m, profile.terrain_elev_m.len()) {
        Some(loss) => Ok((cell, elevation, loss)),
        None => Err(GeopropError::InvalidPropagationInput),
    }
}

/// What may come of a cell: an error where the terrain source has no
/// profile for it, else what comes of the profile it built.
pub open spec fn cell_outcome<
    T: Copy,
    B: Fn(&ProfileRequest<T>) -> Option<Profile<T>>,
    M: Fn(&Link<T>, &Vec<T>, usize) -> Option<Decibels>,
>(
    build: B,
    model: M,
    center: Point<T>,
    freq: T,
    rx_alt: T,
    cell: u64,
    out: Result<(u64, T, Decibels), GeopropError>,
) -> bool {
    ||| {
        &&& out == Err::<(u64, T, Decibels), GeopropError>(GeopropError::MissingTerrainData)
        &&& call_ensures(build, (&request_for(center, cell, rx_alt),), None)
    }
    ||| exists|profile: Profile<T>|
        {
            &&& #[trigger] call_ensures(
                build,
                (&request_for(center, cell, rx_alt),),
                Some(profile),
            )
            &&& profile_outcome(model, center, freq, rx_alt, cell, profile, out)
        }
}

/// Asks for the profile from `center` to `cell` and judges the link over
/// it.
pub fn estimate_cell<
    T: Copy,
    B: Fn(&ProfileRequest<T>) -> Option<Profile<T>>,
    M: Fn(&Link<T>, &Vec<T>, usize) -> Option<Decibels>,
>(center: &Point<T>, freq: T, rx_alt: T, cell: u64, build: &B, model: &M) -> (out: Result<
    (u64, T, Decibels),
    GeopropError,
>)
    requires
        builds_profiles(*build),
        accepts_links(*model),
    ensures
        cell_outcome(*build, *model, *center, freq, rx_alt, cell, out),
{
    let request = ProfileRequest {
        start: *center,
        end_cell: cell,
        end_alt: rx_alt,
        max_step_m: MAX_STEP_M,
    };
    assert(request == request_for(*center, cell, rx_alt));
    let built = build(&request);
    match built {
        None => Err(GeopropError::MissingTerrainData),
        Some(profile) => {
            let out = cell_loss(center, freq, rx_alt, cell, &profile, model);
            assert(call_ensures(*build, (&request_for(*center, cell, rx_alt),), Some(profile)));
            out
        },
    }
}

/// `entries[i]` is what came of `cells[i]`, for every cell.
pub open spec fn covered<
    T: Copy,
    B: Fn(&ProfileRequest<T>) -> Option<Profile<T>>,
    M: Fn(&Link<T>, &Vec<T>, usize) -> Option<Decibels>,
>(
    build: B,
    model: M,
    center: Point<T>,
    freq: T,
    rx_alt: T,
    cells: Seq<u64>,
    entries: Seq<(u64, T, Decibels)>,
) -> bool {
    &&& entries.len() == cells.len()
    &&& forall|i: int|
        0 <= i < cells.len() ==> cell_outcome(
            build,
            model,
            center,
            freq,
            rx_alt,
            cells[i],
            Ok(#[trigger] entries[i]),
        )
}

/// What `gather` may return: an entry for every cell, or the error of the
/// first cell in their order that failed, all cells before it having
/// succeeded.
pub open spec fn gather_outcome<
    T: Copy,
    B: Fn(&ProfileRequest<T>) -> Option<Profile<T>>,
    M: Fn(&Link<T>, &Vec<T>, usize) -> Option<Decibels>,
>(
    build: B,
    model: M,
    center: Point<T>,
    freq: T,
    rx_alt: T,
    cells: Seq<u64>,
    out: Result<Seq<(u64, T, Decibels)>, GeopropError>,
) -> bool {
    match out {
        Ok(entries) => covered(build, model, center, freq, rx_alt, cells, entries),
        Err(e) => exists|before: Seq<(u64, T, Decibels)>|
            {
                &&& before.len() < cells.len()
                &&& #[trigger] covered(
                    build,
                    model,
                    center,
                    freq,
                    rx_alt,
                    cells.take(before.len() as int),
                    before,
                )
                &&& cell_outcome(
                    build,
                    model,
                    center,
                    freq,
                    rx_alt,
                    cells[before.len() as int],
                    Err(e),
                )
            },
    }
}

/// Judges the link to every cell, the cells side by side, and returns
/// the entries of all of them, or the error of the first that failed.
pub fn gather<
    T: Copy + Send + Sync,
    B: Fn(&ProfileRequest<T>) -> Option<Profile<T>> + Sync,
    M: Fn(&Link<T>, &Vec<T>, usize) -> Option<Decibels> + Sync,
>(center: &Point<T>, freq: T, rx_alt: T, cells: &Vec<u64>, build: &B, model: &M) -> (out: Result<
    Vec<(u64, T, Decibels)>,
    GeopropError,
>)
    requires
        builds_profiles(*build),
        accepts_links(*model),
    ensures
        match out {
            Ok(entries) => gather_outcome(
                *build,
                *model,
                *center,
                freq,
                rx_alt,
                cells@,
                Ok(entries@),
            ),
            Err(e) => gather_outcome(*build, *model, *center, freq, rx_alt, cells@, Err(e)),
        },
{
    let judge = |cell: u64| -> (out: Result<(u64, T, Decibels), GeopropError>)
        ensures
            cell_outcome(*build, *model, *center, freq, rx_alt, cell, out),
        { estimate_cell(center, freq, rx_alt, cell, build, model) };
    let outcomes = par_map(cells, &judge);
    let out = all_or_first_error(&outcomes);
    proof {
        assert forall|i: int| 0 <= i < cells@.len() implies cell_outcome(
            *build,
            *model,
            *center,
            freq,
            rx_alt,
            cells@[i],
            #[trigger] outcomes@[i],
        ) by {
            assert(call_ensures(judge, (cells@[i],), outcomes@[i]));
        }
        match out {
            Ok(_) => {},
            Err(e) => {
                let at = choose|at: int| #[trigger]
                    fails_first_at(outcomes@, at) && outcomes@[at] == Err::<
                        (u64, T, Decibels),
                        GeopropError,
                    >(e);
                let before = Seq::new(at as nat, |j: int| outcomes@[j]->Ok_0);
                assert forall|j: int| 0 <= j < at implies cell_outcome(
                    *build,
                    *model,
                    *center,
                    freq,
                    rx_alt,
                    cells@.take(at)[j],
                    Ok(#[trigger] before[j]),
                ) by {
                    assert(outcomes@[j] is Ok);
                    assert(outcomes@[j] == Ok::<(u64, T, Decibels), GeopropError>(before[j]));
                }
                assert(covered(
                    *build,
                    *model,
                    *center,
                    freq,
                    rx_alt,
                    cells@.take(before.len() as int),
                    before,
                ));
            },
        }
    }
    out
}

/// Whether a loss is kept under a threshold: with none every loss is,
/// with one only a loss strictly below it.
pub open spec fn passes(loss: Decibels, threshold: Option<Decibels>) -> bool {
    match threshold {
        None => true,
        Some(limit) => loss.lt(limit),
    }
}

/// The entries whose loss is kept under `threshold`, in their order.
pub open spec fn select<T>(entries: Seq<(u64, T, Decibels)>, threshold: Option<Decibels>) -> Seq<
    (u64, T, Decibels),
> {
    entries.filter(|entry: (u64, T, Decibels)| passes(entry.2, threshold))
}

/// Keeps the entries whose loss passes the threshold.
pub fn filter_below<T: Copy>(entries: &Vec<(u64, T, Decibels)>, threshold: Option<Decibels>) -> (out:
    Vec<(u64, T, Decibels)>)
    ensures
        out@ == select(entries@, threshold),
{
    let mut out: Vec<(u64, T, Decibels)> = Vec::new();
    let mut i: usize = 0;
    while i < entries.len()
        invariant
            i <= entries@.len(),
            out@ == select(entries@.take(i as int), threshold),
        decreases entries@.len() - i,
    {
        let entry = entries[i];
        let keep = match threshold {
            None => true,
            Some(limit) => entry.2.is_below(&limit),
        };
        proof {
            let pred = |entry: (u64, T, Decibels)| passes(entry.2, threshold);
            assert(entries@.take(i + 1) == entries@.take(i as int).push(entry));
            entries@.take(i as int).lemma_filter_push(entry, pred);
        }
        if keep {
            out.push(entry);
        }
        i = i + 1;
    }
    assert(entries@.take(i as int) == entries@);
    out
}

/// A grid that names the cell around a point at every resolution it has.
pub open spec fn locates<T, L: Fn(&Point<T>, u8) -> u64>(locate: L) -> bool {
    forall|point: Point<T>, res: u8| res <= 15 ==> call_requires(locate, (&point, res))
}

/// A rule that says of every ring whether it lies within the radius.
pub open spec fn bounds_rings<T, W: Fn(u8, T, u32) -> bool>(within: W) -> bool {
    forall|res: u8, radius: T, ring: u32| res <= 15 ==> call_requires(within, (res, radius, ring))
}

/// What may come of the cells in range: the entries of all of them that
/// pass the threshold, in the order of the cells, or the error of the
/// first cell that failed.
pub open spec fn coverage_outcome<
    T: Copy,
    B: Fn(&ProfileRequest<T>) -> Option<Profile<T>>,
    M: Fn(&Link<T>, &Vec<T>, usize) -> Option<Decibels>,
>(
    build: B,
    model: M,
    center: Point<T>,
    freq: T,
    rx_alt: T,
    cells: Seq<u64>,
    threshold: Option<Decibels>,
    out: Result<Seq<(u64, T, Decibels)>, GeopropError>,
) -> bool {
    match out {
        Ok(kept) => exists|entries: Seq<(u64, T, Decibels)>|
            {
                &&& #[trigger] covered(build, model, center, freq, rx_alt, cells, entries)
                &&& kept == select(entries, threshold)
            },
        Err(e) => gather_outcome(build, model, center, freq, rx_alt, cells, Err(e)),
    }
}

/// What `estimate` may return. At a resolution that the grid does not have
/// it is an error. Else there are a cell that the grid names for `center`
/// and a number of rings within the radius, and the result is what comes
/// of the cells of those rings around that cell.
pub open spec fn estimate_outcome<
    T: Copy,
    L: Fn(&Point<T>, u8) -> u64,
    W: Fn(u8, T, u32) -> bool,
    B: Fn(&ProfileRequest<T>) -> Option<Profile<T>>,
    M: Fn(&Link<T>, &Vec<T>, usize) -> Option<Decibels>,
>(
    locate: L,
    within: W,
    build: B,
    model: M,
    center: Point<T>,
    res: u8,
    freq: T,
    max_radius: T,
    rx_alt: T,
    threshold: Option<Decibels>,
    out: Result<Seq<(u64, T, Decibels)>, GeopropError>,
) -> bool {
    if res > 15 {
        out == Err::<Seq<(u64, T, Decibels)>, GeopropError>(GeopropError::InvalidResolution)
    } else {
        exists|cell: u64, rings: nat|
            {
                &&& #[trigger] call_ensures(locate, (&center, res), cell)
                &&& #[trigger] ring_count_of(within, res, max_radius, rings)
                &&& coverage_outcome(
                    build,
                    model,
                    center,
                    freq,
                    rx_alt,
                    disk(cell, rings),
                    threshold,
                    out,
                )
            }
    }
}

/// Given a transmitter at `center`, estimates its coverage taking terrain
/// into account: the loss to every cell of the grid at resolution `res`
/// in the rings around the transmitter's cell that lie within
/// `max_radius_km`, to a receiver `rx_alt_m` above ground. With a
/// threshold only the cells whose loss is below it are returned.
///
/// `locate` names the cell around a point, `within` says whether a ring
/// lies within a radius, `build` hands out the terrain profile to a cell
/// and `model` the loss over a profile.
pub fn estimate<
    T: Copy + Send + Sync,
    L: Fn(&Point<T>, u8) -> u64,
    W: Fn(u8, T, u32) -> bool,
    B: Fn(&ProfileRequest<T>) -> Option<Profile<T>> + Sync,
    M: Fn(&Link<T>, &Vec<T>, usize) -> Option<Decibels> + Sync,
>(
    center: Point<T>,
    res: u8,
    freq_hz: T,
    max_radius_km: T,
    rx_alt_m: T,
    rx_threshold_db: Option<Decibels>,
    locate: L,
    within: W,
    build: B,
    model: M,
) -> (out: Result<Vec<(u64, T, Decibels)>, GeopropError>)
    requires
        locates(locate),
        bounds_rings(within),
        builds_profiles(build),
        accepts_links(model),
    ensures
        match out {
            Ok(kept) => estimate_outcome(
                locate,
                within,
                build,
                model,
                center,
                res,
                freq_hz,
                max_radius_km,
                rx_alt_m,
                rx_threshold_db,
                Ok(kept@),
            ),
            Err(e) => estimate_outcome(
                locate,
                within,
                build,
                model,
                center,
                res,
                freq_hz,
                max_radius_km,
                rx_alt_m,
                rx_threshold_db,
                Err(e),
            ),
        },
{
    if res > MAX_RESOLUTION {
        return Err(GeopropError::InvalidResolution);
    }
    let cell = locate(&center, res);
    let rings = included_rings(res, max_radius_km, &within);
    let cells = disk_cells(cell, rings);
    proof {
        assert(call_ensures(locate, (&center, res), cell));
        assert(ring_count_of(within, res, max_radius_km, rings as nat));
    }
    match gather(&center, freq_hz, rx_alt_m, &cells, &build, &model) {
        Ok(entries) => {
            let kept = filter_below(&entries, rx_threshold_db);
            assert(covered(build, model, center, freq_hz, rx_alt_m, cells@, entries@));
            Ok(kept)
        },
        Err(e) => Err(e),
    }
}

/// A grid that names one cell for one point.
pub open spec fn locates_one<T, L: Fn(&Point<T>, u8) -> u64>(locate: L) -> bool {
    forall|point: Point<T>, res: u8, a: u64, b: u64|
        call_ensures(locate, (&point, res), a) && call_ensures(locate, (&point, res), b) ==> a
            == b
}

/// The cell identifiers of entries, in their order.
pub open spec fn cell_ids<T>(entries: Seq<(u64, T, Decibels)>) -> Seq<u64> {
    entries.map_values(|entry: (u64, T, Decibels)| entry.0)
}

/// Every entry bears the identifier of the cell it was made for.
pub proof fn lemma_entries_name_their_cells<
    T: Copy,
    B: Fn(&ProfileRequest<T>) -> Option<Profile<T>>,
    M: Fn(&Link<T>, &Vec<T>, usize) -> Option<Decibels>,
>(
    build: B,
    model: M,
    center: Point<T>,
    freq: T,
    rx_alt: T,
    cells: Seq<u64>,
    entries: Seq<(u64, T, Decibels)>,
)
    requires
        covered(build, model, center, freq, rx_alt, cells, entries),
    ensures
        cell_ids(entries) == cells,
{
    assert forall|i: int| 0 <= i < cells.len() implies entries[i].0 == cells[i] by {
        assert(cell_outcome(build, model, center, freq, rx_alt, cells[i], Ok(entries[i])));
    }
    assert(cell_ids(entries) =~= cells);
}

/// Of a terrain source and a model that each give one answer to one
/// question, the entries for given cells are determined.
pub proof fn lemma_entries_determined<
    T: Copy,
    B: Fn(&ProfileRequest<T>) -> Option<Profile<T>>,
    M: Fn(&Link<T>, &Vec<T>, usize) -> Option<Decibels>,
>(
    build: B,
    model: M,
    center: Point<T>,
    freq: T,
    rx_alt: T,
    cells: Seq<u64>,
    a: Seq<(u64, T, Decibels)>,
    b: Seq<(u64, T, Decibels)>,
)
    requires
        builds_one(build),
        single_valued(model),
        covered(build, model, center, freq, rx_alt, cells, a),
        covered(build, model, center, freq, rx_alt, cells, b),
    ensures
        a == b,
{
    assert forall|i: int| 0 <= i < cells.len() implies a[i] == b[i] by {
        assert(cell_outcome(build, model, center, freq, rx_alt, cells[i], Ok(a[i])));
        assert(cell_outcome(build, model, center, freq, rx_alt, cells[i], Ok(b[i])));
        let request = request_for(center, cells[i], rx_alt);
        let pa = choose|profile: Profile<T>| #[trigger]
            call_ensures(build, (&request,), Some(profile)) && profile_outcome(
                model,
                center,
                freq,
                rx_alt,
                cells[i],
                profile,
                Ok(a[i]),
            );
        let pb = choose|profile: Profile<T>| #[trigger]
            call_ensures(build, (&request,), Some(profile)) && profile_outcome(
                model,
                center,
                freq,
                rx_alt,
                cells[i],
                profile,
                Ok(b[i]),
            );
        assert(Some(pa) == Some(pb));
    }
    assert(a =~= b);
}

/// Filtering keeps identifiers distinct: entries that pass a threshold
/// name no cell twice where the entries they were taken from name none
/// twice.
pub proof fn lemma_select_keeps_cells_distinct<T>(
    entries: Seq<(u64, T, Decibels)>,
    threshold: Option<Decibels>,
)
    requires
        cell_ids(entries).no_duplicates(),
    ensures
        cell_ids(select(entries, threshold)).no_duplicates(),
    decreases entries.len(),
{
    let pred = |entry: (u64, T, Decibels)| passes(entry.2, threshold);
    if entries.len() == 0 {
        entries.lemma_filter_len(pred);
    } else {
        let init = entries.drop_last();
        let last = entries.last();
        assert(entries == init.push(last));
        assert forall|i: int, j: int|
            0 <= i < init.len() && 0 <= j < init.len() && i != j implies cell_ids(init)[i]
            != cell_ids(init)[j] by {
            assert(cell_ids(entries).len() == entries.len());
            assert(cell_ids(entries)[i] != cell_ids(entries)[j]);
        }
        lemma_select_keeps_cells_distinct(init, threshold);
        init.lemma_filter_push(last, pred);
        let kept = select(init, threshold);
        if pred(last) {
            assert forall|i: int, j: int|
                0 <= i < kept.len() + 1 && 0 <= j < kept.len() + 1 && i != j implies cell_ids(
                kept.push(last),
            )[i] != cell_ids(kept.push(last))[j] by {
                if i < kept.len() && j < kept.len() {
                    assert(cell_ids(kept)[i] != cell_ids(kept)[j]);
                } else {
                    let k = if i < kept.len() {
                        i
                    } else {
                        j
                    };
                    assert(kept.contains(kept[k]));
                    init.lemma_filter_contains_rev(pred, kept[k]);
                    let m = choose|m: int| 0 <= m < init.len() && init[m] == kept[k];
                    assert(cell_ids(entries)[m] != cell_ids(entries)[entries.len() - 1]);
                }
            }
        }
    }
}

/// A threshold does what filtering afterwards does: without one every
/// entry is kept, and the entries below a limit are those of the
/// unfiltered result that are below it.
pub proof fn lemma_threshold_filters_afterwards<T>(
    entries: Seq<(u64, T, Decibels)>,
    limit: Decibels,
)
    ensures
        select(entries, None) == entries,
        select(select(entries, None), Some(limit)) == select(entries, Some(limit)),
        forall|i: int|
            0 <= i < select(entries, Some(limit)).len() ==> (#[trigger] select(
                entries,
                Some(limit),
            )[i]).2.lt(limit),
    decreases entries.len(),
{
    let all = |entry: (u64, T, Decibels)| passes(entry.2, None);
    let below = |entry: (u64, T, Decibels)| passes(entry.2, Some(limit));
    if entries.len() == 0 {
        entries.lemma_filter_len(all);
        assert(select(entries, None) =~= entries);
    } else {
        let init = entries.drop_last();
        let last = entries.last();
        assert(entries == init.push(last));
        lemma_threshold_filters_afterwards(init, limit);
        init.lemma_filter_push(last, all);
    }
    assert forall|i: int| 0 <= i < select(entries, Some(limit)).len() implies (#[trigger] select(
        entries,
        Some(limit),
    )[i]).2.lt(limit) by {
        entries.lemma_filter_pred(below, i);
    }
}

/// The cell, the number of rings and the entries behind a result of
/// `estimate`.
pub proof fn lemma_estimate_unfolds<
    T: Copy,
    L: Fn(&Point<T>, u8) -> u64,
    W: Fn(u8, T, u32) -> bool,
    B: Fn(&ProfileRequest<T>) -> Option<Profile<T>>,
    M: Fn(&Link<T>, &Vec<T>, usize) -> Option<Decibels>,
>(
    locate: L,
    within: W,
    build: B,
    model: M,
    center: Point<T>,
    res: u8,
    freq: T,
    max_radius: T,
    rx_alt: T,
    threshold: Option<Decibels>,
    kept: Seq<(u64, T, Decibels)>,
) -> (found: (u64, nat, Seq<(u64, T, Decibels)>))
    requires
        res <= 15,
        estimate_outcome(
            locate,
            within,
            build,
            model,
            center,
            res,
            freq,
            max_radius,
            rx_alt,
            threshold,
            Ok(kept),
        ),
    ensures
        call_ensures(locate, (&center, res), found.0),
        ring_count_of(within, res, max_radius, found.1),
        covered(build, model, center, freq, rx_alt, disk(found.0, found.1), found.2),
        kept == select(found.2, threshold),
{
    let (cell, rings) = choose|cell: u64, rings: nat|
        {
            &&& #[trigger] call_ensures(locate, (&center, res), cell)
            &&& #[trigger] ring_count_of(within, res, max_radius, rings)
            &&& coverage_outcome(
                build,
                model,
                center,
                freq,
                rx_alt,
                disk(cell, rings),
                threshold,
                Ok(kept),
            )
        };
    let entries = choose|entries: Seq<(u64, T, Decibels)>|
        {
            &&& #[trigger] covered(build, model, center, freq, rx_alt, disk(cell, rings), entries)
            &&& kept == select(entries, threshold)
        };
    (cell, rings, entries)
}

/// No cell occurs twice in a result of `estimate`, on a grid whose rings
/// share no cell and hold none twice.
pub proof fn lemma_estimate_cells_distinct<
    T: Copy,
    L: Fn(&Point<T>, u8) -> u64,
    W: Fn(u8, T, u32) -> bool,
    B: Fn(&ProfileRequest<T>) -> Option<Profile<T>>,
    M: Fn(&Link<T>, &Vec<T>, usize) -> Option<Decibels>,
>(
    locate: L,
    within: W,
    build: B,
    model: M,
    center: Point<T>,
    res: u8,
    freq: T,
    max_radius: T,
    rx_alt: T,
    threshold: Option<Decibels>,
    kept: Seq<(u64, T, Decibels)>,
)
    requires
        res <= 15,
        estimate_outcome(
            locate,
            within,
            build,
            model,
            center,
            res,
            freq,
            max_radius,
            rx_alt,
            threshold,
            Ok(kept),
        ),
        forall|cell: u64, rings: nat| rings <= 0x1_0000_0000 ==> rings_disjoint(cell, rings),
    ensures
        cell_ids(kept).no_duplicates(),
{
    let (cell, rings, entries) = lemma_estimate_unfolds(
        locate,
        within,
        build,
        model,
        center,
        res,
        freq,
        max_radius,
        rx_alt,
        threshold,
        kept,
    );
    lemma_disk_no_duplicates(cell, rings);
    lemma_entries_name_their_cells(build, model, center, freq, rx_alt, disk(cell, rings), entries);
    lemma_select_keeps_cells_distinct(entries, threshold);
}

/// Filtering the result of `estimate` without a threshold down to the
/// losses below `limit` gives the result of `estimate` with that
/// threshold, where each of the four collaborators gives one answer to
/// one question.
pub proof fn lemma_estimate_threshold<
    T: Copy,
    L: Fn(&Point<T>, u8) -> u64,
    W: Fn(u8, T, u32) -> bool,
    B: Fn(&ProfileRequest<T>) -> Option<Profile<T>>,
    M: Fn(&Link<T>, &Vec<T>, usize) -> Option<Decibels>,
>(
    locate: L,
    within: W,
    build: B,
    model: M,
    center: Point<T>,
    res: u8,
    freq: T,
    max_radius: T,
    rx_alt: T,
    limit: Decibels,
    unfiltered: Seq<(u64, T, Decibels)>,
    filtered: Seq<(u64, T, Decibels)>,
)
    requires
        res <= 15,
        locates_one(locate),
        decides_rings(within),
        builds_one(build),
        single_valued(model),
        estimate_outcome(
            locate,
            within,
            build,
            model,
            center,
            res,
            freq,
            max_radius,
            rx_alt,
            None,
            Ok(unfiltered),
        ),
        estimate_outcome(
            locate,
            within,
            build,
            model,
            center,
            res,
            freq,
            max_radius,
            rx_alt,
            Some(limit),
            Ok(filtered),
        ),
    ensures
        filtered == select(unfiltered, Some(limit)),
{
    let (cell_a, rings_a, entries_a) = lemma_estimate_unfolds(
        locate,
        within,
        build,
        model,
        center,
        res,
        freq,
        max_radius,
        rx_alt,
        None,
        unfiltered,
    );
    let (cell_b, rings_b, entries_b) = lemma_estimate_unfolds(
        locate,
        within,
        build,
        model,
        center,
        res,
        freq,
        max_radius,
        rx_alt,
        Some(limit),
        filtered,
    );
    assert(cell_a == cell_b);
    lemma_ring_count_unique(within, res, max_radius, rings_a, rings_b);
    lemma_entries_determined(
        build,
        model,
        center,
        freq,
        rx_alt,
        disk(cell_a, rings_a),
        entries_a,
        entries_b,
    );
    lemma_threshold_filters_afterwards(entries_a, limit);
}

/// Missing terrain gives no partial result: where the terrain source has
/// no profile for one of the cells in range, `estimate` returns an error.
pub proof fn lemma_missing_terrain_aborts<
    T: Copy,
    L: Fn(&Point<T>, u8) -> u64,
    W: Fn(u8, T, u32) -> bool,
    B: Fn(&ProfileRequest<T>) -> Option<Profile<T>>,
    M: Fn(&Link<T>, &Vec<T>, usize) -> Option<Decibels>,
>(
    locate: L,
    within: W,
    build: B,
    model: M,
    center: Point<T>,
    res: u8,
    freq: T,
    max_radius: T,
    rx_alt: T,
    threshold: Option<Decibels>,
    out: Result<Seq<(u64, T, Decibels)>, GeopropError>,
    cell: u64,
    rings: nat,
    i: int,
)
    requires
        res <= 15,
        locates_one(locate),
        decides_rings(within),
        builds_one(build),
        estimate_outcome(
            locate,
            within,
            build,
            model,
            center,
            res,
            freq,
            max_radius,
            rx_alt,
            threshold,
            out,
        ),
        call_ensures(locate, (&center, res), cell),
        ring_count_of(within, res, max_radius, rings),
        0 <= i < disk(cell, rings).len(),
        call_ensures(build, (&request_for(center, disk(cell, rings)[i], rx_alt),), None),
    ensures
        out is Err,
{
    if let Ok(kept) = out {
        let (cell_a, rings_a, entries) = lemma_estimate_unfolds(
            locate,
            within,
            build,
            model,
            center,
            res,
            freq,
            max_radius,
            rx_alt,
            threshold,
            kept,
        );
        assert(cell_a == cell);
        lemma_ring_count_unique(within, res, max_radius, rings_a, rings);
        assert(cell_outcome(
            build,
            model,
            center,
            freq,
            rx_alt,
            disk(cell, rings)[i],
            Ok(entries[i]),
        ));
    }
}

/// A radius that admits ring zero only gives one entry, that of the
/// transmitter's own cell; where the profile to it has one sample, the
/// loss is zero and the elevation that sample. This holds without a
/// threshold and with one that zero lies below.
pub proof fn lemma_ring_zero_alone<
    T: Copy,
    L: Fn(&Point<T>, u8) -> u64,
    W: Fn(u8, T, u32) -> bool,
    B: Fn(&ProfileRequest<T>) -> Option<Profile<T>>,
    M: Fn(&Link<T>, &Vec<T>, usize) -> Option<Decibels>,
>(
    locate: L,
    within: W,
    build: B,
    model: M,
    center: Point<T>,
    res: u8,
    freq: T,
    max_radius: T,
    rx_alt: T,
    threshold: Option<Decibels>,
    out: Result<Seq<(u64, T, Decibels)>, GeopropError>,
    cell: u64,
    profile: Profile<T>,
)
    requires
        res <= 15,
        locates_one(locate),
        decides_rings(within),
        builds_one(build),
        estimate_outcome(
            locate,
            within,
            build,
            model,
            center,
            res,
            freq,
            max_radius,
            rx_alt,
            threshold,
            out,
        ),
        passes(Decibels { bits: 0 }, threshold),
        call_ensures(locate, (&center, res), cell),
        ring_cells(cell, 0) is Some,
        ring_count_of(within, res, max_radius, 1),
        call_ensures(build, (&request_for(center, cell, rx_alt),), Some(profile)),
        profile.degenerate(),
    ensures
        out == Ok::<Seq<(u64, T, Decibels)>, GeopropError>(
            seq![(cell, profile.last_elevation(), Decibels { bits: 0 })],
        ),
{
    let (cell_a, rings_a) = choose|cell: u64, rings: nat|
        {
            &&& #[trigger] call_ensures(locate, (&center, res), cell)
            &&& #[trigger] ring_count_of(within, res, max_radius, rings)
            &&& coverage_outcome(
                build,
                model,
                center,
                freq,
                rx_alt,
                disk(cell, rings),
                threshold,
                out,
            )
        };
    assert(cell_a == cell);
    lemma_ring_count_unique(within, res, max_radius, rings_a, 1);
    let cells = disk(cell, 1);
    assert(cells =~= seq![cell]) by {
        reveal_with_fuel(disk, 2);
    }
    match out {
        Ok(kept) => {
            let entries = choose|entries: Seq<(u64, T, Decibels)>|
                {
                    &&& #[trigger] covered(build, model, center, freq, rx_alt, cells, entries)
                    &&& kept == select(entries, threshold)
                };
            assert(cell_outcome(build, model, center, freq, rx_alt, cells[0], Ok(entries[0])));
            let only = (cell, profile.last_elevation(), Decibels { bits: 0 });
            assert(entries =~= Seq::empty().push(only));
            Seq::<(u64, T, Decibels)>::empty().lemma_filter_push(
                only,
                |entry: (u64, T, Decibels)| passes(entry.2, threshold),
            );
            Seq::<(u64, T, Decibels)>::empty().lemma_filter_len(
                |entry: (u64, T, Decibels)| passes(entry.2, threshold),
            );
            assert(kept =~= seq![(cell, profile.last_elevation(), Decibels { bits: 0 })]);
        },
        Err(e) => {
            let before = choose|before: Seq<(u64, T, Decibels)>|
                {
                    &&& before.len() < cells.len()
                    &&& #[trigger] covered(
                        build,
                        model,
                        center,
                        freq,
                        rx_alt,
                        cells.take(before.len() as int),
                        before,
                    )
                    &&& cell_outcome(
                        build,
                        model,
                        center,
                        freq,
                        rx_alt,
                        cells[before.len() as int],
                        Err(e),
                    )
                };
            assert(cell_outcome(build, model, center, freq, rx_alt, cells[0], Err(e)));
        },
    }
}

} // verus!
