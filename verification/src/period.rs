//! Classification of an instant into the five periods of the local day.
//!
//! All instants are Unix timestamps in seconds. The classifier evaluates the
//! four ranges literally, in order, and falls through to `Midnight` when none
//! matches, so that a pathological ordering of the solar moments (extreme
//! latitudes, provider edge cases) degrades gracefully instead of failing.

use vstd::prelude::*;

verus! {

/// Seconds by which the late-afternoon band precedes sunset: a fixed design
/// constant separating late-afternoon glare from early-afternoon light.
pub const LATE_AFTERNOON_LEAD_SECS: i64 = 90 * 60;

/// One of five named segments of the local day, used to pick a wallpaper
/// rule bucket.
#[derive(Clone, Copy, Debug, PartialEq, Eq, Structural)]
pub enum Period {
    Midnight,
    Morning,
    EarlyAfternoon,
    LateAfternoon,
    Evening,
}

/// The period an instant falls in, decided by the first matching range:
/// morning, early afternoon, late afternoon, evening, with midnight as the
/// total fallback.
pub open spec fn classify_spec(
    now: int,
    sunrise: int,
    midday: int,
    sunset: int,
    midnight: int,
) -> Period {
    if sunrise <= now < midday {
        Period::Morning
    } else if midday <= now < sunset - LATE_AFTERNOON_LEAD_SECS {
        Period::EarlyAfternoon
    } else if midday <= now < sunset {
        Period::LateAfternoon
    } else if sunset <= now < midnight {
        Period::Evening
    } else {
        Period::Midnight
    }
}

/// Classifies `now` against the four solar moments of the day.
pub fn classify(now: i64, sunrise: i64, midday: i64, sunset: i64, midnight: i64) -> (p: Period)
    ensures
        p == classify_spec(now as int, sunrise as int, midday as int, sunset as int, midnight as int),
{
    let early_end: i128 = sunset as i128 - LATE_AFTERNOON_LEAD_SECS as i128;
    if sunrise <= now && now < midday {
        Period::Morning
    } else if midday <= now && (now as i128) < early_end {
        Period::EarlyAfternoon
    } else if midday <= now && now < sunset {
        Period::LateAfternoon
    } else if sunset <= now && now < midnight {
        Period::Evening
    } else {
        Period::Midnight
    }
}

/// Under the normal ordering of the solar moments, every instant inside one
/// of the four ranges is classified into exactly that range's period, and
/// every instant outside all of them falls back to `Midnight`.
pub proof fn lemma_classify_ranges(now: int, sunrise: int, midday: int, sunset: int, midnight: int)
    requires
        sunrise <= midday <= sunset <= midnight,
    ensures
        sunrise <= now < midday ==> classify_spec(now, sunrise, midday, sunset, midnight)
            == Period::Morning,
        midday <= now < sunset - LATE_AFTERNOON_LEAD_SECS ==> classify_spec(
            now,
            sunrise,
            midday,
            sunset,
            midnight,
        ) == Period::EarlyAfternoon,
        midday <= now < sunset && sunset - LATE_AFTERNOON_LEAD_SECS <= now ==> classify_spec(
            now,
            sunrise,
            midday,
            sunset,
            midnight,
        ) == Period::LateAfternoon,
        sunset <= now < midnight ==> classify_spec(now, sunrise, midday, sunset, midnight)
            == Period::Evening,
        now < sunrise || midnight <= now ==> classify_spec(now, sunrise, midday, sunset, midnight)
            == Period::Midnight,
{
}

} // verus!
