use sky_color_wallpaper::period::{classify, Period};

// The reference day starts at timestamp 0; the moments are 06:00, 12:00,
// 18:00 and 24:00 local, in seconds.
const SUNRISE: i64 = 6 * 3600;
const MIDDAY: i64 = 12 * 3600;
const SUNSET: i64 = 18 * 3600;
const MIDNIGHT: i64 = 24 * 3600;

fn classify_at(now: i64) -> Period {
    classify(now, SUNRISE, MIDDAY, SUNSET, MIDNIGHT)
}

#[test]
fn seven_in_the_morning_is_morning() {
    assert_eq!(classify_at(7 * 3600), Period::Morning);
}

#[test]
fn half_past_twelve_is_early_afternoon() {
    assert_eq!(classify_at(12 * 3600 + 30 * 60), Period::EarlyAfternoon);
}

#[test]
fn quarter_to_five_is_late_afternoon() {
    // sunset minus 90 minutes is 16:30, so 16:45 falls in the late band
    assert_eq!(classify_at(16 * 3600 + 45 * 60), Period::LateAfternoon);
}

#[test]
fn seven_in_the_evening_is_evening() {
    assert_eq!(classify_at(19 * 3600), Period::Evening);
}

#[test]
fn two_at_night_is_midnight() {
    assert_eq!(classify_at(2 * 3600), Period::Midnight);
}

#[test]
fn classify_range_boundaries() {
    assert_eq!(classify_at(SUNRISE), Period::Morning);
    assert_eq!(classify_at(MIDDAY - 1), Period::Morning);
    assert_eq!(classify_at(MIDDAY), Period::EarlyAfternoon);
    assert_eq!(classify_at(SUNSET - 90 * 60 - 1), Period::EarlyAfternoon);
    assert_eq!(classify_at(SUNSET - 90 * 60), Period::LateAfternoon);
    assert_eq!(classify_at(SUNSET - 1), Period::LateAfternoon);
    assert_eq!(classify_at(SUNSET), Period::Evening);
    assert_eq!(classify_at(MIDNIGHT - 1), Period::Evening);
    assert_eq!(classify_at(MIDNIGHT), Period::Midnight);
    assert_eq!(classify_at(SUNRISE - 1), Period::Midnight);
}

#[test]
fn classify_degrades_to_midnight_on_disordered_moments() {
    // sunset before midday: no range matches an instant between them
    assert_eq!(classify(10, 20, 40, 30, 25), Period::Midnight);
}
