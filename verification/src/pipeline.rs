//! The selection pipeline: classify the instant, resolve the candidates,
//! pick one at random.

use crate::period::{classify, classify_spec};
use crate::rules::{entries_for_spec, resolve, snapshot_view, surviving_patterns_spec, RuleSet};
use crate::select::{select, NoMatchError};
use crate::weather::CurrentWeatherData;
use vstd::prelude::*;

verus! {

/// Seconds in a civil day.
pub const DAY_SECS: i64 = 24 * 60 * 60;

/// The four instants of the local day the classifier works from, as Unix
/// timestamps in seconds.
#[derive(Clone, Copy, Debug, PartialEq, Eq, Structural)]
pub struct SolarMoments {
    pub sunrise: i64,
    pub midday: i64,
    pub sunset: i64,
    pub midnight: i64,
}

/// The midnight boundary of the reference day: the raw solar midnight,
/// advanced by one day only when it precedes the day's start, and kept as
/// computed otherwise. At a raw midnight equal to the day's start the
/// boundary coincides with the start — the one instant the advance rule
/// leaves on the boundary itself rather than strictly beyond it.
pub open spec fn midnight_boundary_spec(raw_midnight: int, day_start: int) -> int {
    if raw_midnight < day_start {
        raw_midnight + (DAY_SECS as int)
    } else {
        raw_midnight
    }
}

/// Advances the computed solar midnight to the reference day's midnight
/// boundary; the boundary lies strictly after the day's start whenever the
/// raw midnight falls within one day before it or anywhere after it.
pub fn midnight_boundary(raw_midnight: i64, day_start: i64) -> (r: i64)
    requires
        raw_midnight < day_start ==> raw_midnight + (DAY_SECS as int) <= i64::MAX,
    ensures
        r == midnight_boundary_spec(raw_midnight as int, day_start as int),
        raw_midnight > day_start - (DAY_SECS as int) ==> r >= day_start,
        raw_midnight > day_start - (DAY_SECS as int) && raw_midnight != day_start ==> r
            > day_start,
{
    if raw_midnight < day_start {
        raw_midnight + DAY_SECS
    } else {
        raw_midnight
    }
}

/// Runs the selection pipeline: classifies `now` against the solar moments,
/// resolves the classified period's rule entries against the weather
/// snapshot and the filesystem, and picks one existing file uniformly at
/// random. Fails with `NoMatchError` exactly when no candidate file exists;
/// in particular whenever no pattern survives the weather filtering.
pub fn choose_wallpaper(
    rules: &RuleSet,
    now: i64,
    moments: &SolarMoments,
    weather: Option<&CurrentWeatherData>,
) -> (r: Result<String, NoMatchError>)
    ensures
        surviving_patterns_spec(
            entries_for_spec(
                *rules,
                classify_spec(
                    now as int,
                    moments.sunrise as int,
                    moments.midday as int,
                    moments.sunset as int,
                    moments.midnight as int,
                ),
            ),
            snapshot_view(weather),
        ).len() == 0 ==> r is Err,
{
    let period = classify(now, moments.sunrise, moments.midday, moments.sunset, moments.midnight);
    let entries = rules.entries_for(period);
    let candidates = resolve(entries, weather);
    select(&candidates)
}

} // verus!
