use sky_color_wallpaper::weather::{
    weather_or_default, Cond, CurrentWeatherData, Weather, WeatherMain,
};

fn clear_sky_snapshot() -> CurrentWeatherData {
    CurrentWeatherData::new(vec![Weather {
        id: 800,
        main: WeatherMain::Clear,
        description: "clear sky".to_owned(),
    }])
}

#[test]
fn category_filter_misses_other_category() {
    let snapshot = clear_sky_snapshot();
    assert!(!snapshot.matches(&[Cond::Main(WeatherMain::Rain)]));
}

#[test]
fn id_filter_matches_equal_code() {
    let snapshot = clear_sky_snapshot();
    assert!(snapshot.matches(&[Cond::Id(800)]));
}

#[test]
fn id_filter_matches_beside_category_filters() {
    let snapshot = clear_sky_snapshot();
    assert!(snapshot.matches(&[
        Cond::Main(WeatherMain::Rain),
        Cond::Main(WeatherMain::Snow),
        Cond::Id(800),
    ]));
}

#[test]
fn empty_filter_set_matches_nothing() {
    let snapshot = clear_sky_snapshot();
    assert!(!snapshot.matches(&[]));
}

#[test]
fn empty_snapshot_matches_nothing() {
    let snapshot = CurrentWeatherData::new(Vec::new());
    assert!(!snapshot.matches(&[Cond::Id(800), Cond::Main(WeatherMain::Clear)]));
}

#[test]
fn compound_snapshot_matches_either_condition() {
    let snapshot = CurrentWeatherData::new(vec![
        Weather {
            id: 500,
            main: WeatherMain::Rain,
            description: "light rain".to_owned(),
        },
        Weather {
            id: 701,
            main: WeatherMain::Mist,
            description: "mist".to_owned(),
        },
    ]);
    assert!(snapshot.matches(&[Cond::Main(WeatherMain::Mist)]));
    assert!(snapshot.matches(&[Cond::Id(500)]));
    assert!(!snapshot.matches(&[Cond::Id(800)]));
}

#[test]
fn default_snapshot_is_clear_sky() {
    let snapshot = CurrentWeatherData::default();
    assert_eq!(snapshot.weather().len(), 1);
    assert_eq!(snapshot.weather()[0].id, 800);
    assert!(snapshot.matches(&[Cond::Id(800)]));
    assert!(snapshot.matches(&[Cond::Main(WeatherMain::Clear)]));
}

#[test]
fn weather_or_default_keeps_fetched_snapshot() {
    let fetched = weather_or_default(Ok(clear_sky_snapshot()));
    assert_eq!(fetched.weather().len(), 1);
    assert_eq!(fetched.weather()[0].description, "clear sky");
}

#[test]
fn weather_or_default_falls_back_to_clear_sky() {
    let fallback = weather_or_default(Err("connection refused".to_owned()));
    assert_eq!(fallback.weather().len(), 1);
    assert_eq!(fallback.weather()[0].id, 800);
}

#[test]
fn category_names_parse_back() {
    assert_eq!(WeatherMain::from_name("Rain"), Some(WeatherMain::Rain));
    assert_eq!(WeatherMain::from_name("Clear"), Some(WeatherMain::Clear));
    assert_eq!(
        WeatherMain::from_name("Thunderstorm"),
        Some(WeatherMain::Thunderstorm),
    );
    assert_eq!(WeatherMain::from_name("rain"), None);
    assert_eq!(WeatherMain::from_name("Drizzle"), None);
    assert_eq!(WeatherMain::from_name(""), None);
    assert_eq!(WeatherMain::Snow.name(), "Snow");
    assert_eq!(
        WeatherMain::from_name(WeatherMain::Squall.name()),
        Some(WeatherMain::Squall),
    );
}
