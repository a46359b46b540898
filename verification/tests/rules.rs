use sky_color_wallpaper::period::Period;
use sky_color_wallpaper::rules::{
    keep_existing, resolve, surviving_patterns, validate_patterns, RuleEntry, RuleSet,
};
use sky_color_wallpaper::weather::{Cond, CurrentWeatherData, Weather, WeatherMain};

fn clear_sky_snapshot() -> CurrentWeatherData {
    CurrentWeatherData::new(vec![Weather {
        id: 800,
        main: WeatherMain::Clear,
        description: "clear sky".to_owned(),
    }])
}

#[test]
fn unconditional_entry_resolves_to_existing_files() {
    // the first pattern matches exactly three files of this crate; the
    // second matches nothing
    let entries = vec![RuleEntry {
        on: None,
        patterns: vec!["src/[alm]*.rs".to_owned(), "src/zz_*.rs".to_owned()],
    }];
    let mut found = resolve(&entries, None);
    found.sort();
    assert_eq!(
        found,
        vec![
            "src/apikey.rs".to_owned(),
            "src/lib.rs".to_owned(),
            "src/mask.rs".to_owned(),
        ],
    );
}

#[test]
fn directories_are_not_candidates() {
    let entries = vec![RuleEntry {
        on: None,
        patterns: vec!["sr[c]".to_owned()],
    }];
    assert_eq!(resolve(&entries, None), Vec::<String>::new());
}

#[test]
fn filtered_entry_contributes_nothing_without_weather() {
    let entries = vec![
        RuleEntry {
            on: Some(vec![Cond::Id(800)]),
            patterns: vec!["src/[alm]*.rs".to_owned()],
        },
        RuleEntry {
            on: None,
            patterns: vec!["src/lib.rs".to_owned()],
        },
    ];
    assert_eq!(
        surviving_patterns(&entries, None),
        vec!["src/lib.rs".to_owned()],
    );
    assert_eq!(resolve(&entries, None), vec!["src/lib.rs".to_owned()]);
}

#[test]
fn matching_filter_contributes_with_weather() {
    let snapshot = clear_sky_snapshot();
    let entries = vec![
        RuleEntry {
            on: Some(vec![Cond::Id(800)]),
            patterns: vec!["src/lib.rs".to_owned()],
        },
        RuleEntry {
            on: Some(vec![Cond::Main(WeatherMain::Rain)]),
            patterns: vec!["src/mask.rs".to_owned()],
        },
    ];
    assert_eq!(
        surviving_patterns(&entries, Some(&snapshot)),
        vec!["src/lib.rs".to_owned()],
    );
    assert_eq!(
        resolve(&entries, Some(&snapshot)),
        vec!["src/lib.rs".to_owned()],
    );
}

#[test]
fn aggregate_all_joins_every_matching_entry() {
    let snapshot = clear_sky_snapshot();
    let entries = vec![
        RuleEntry {
            on: None,
            patterns: vec!["src/lib.rs".to_owned()],
        },
        RuleEntry {
            on: Some(vec![Cond::Main(WeatherMain::Clear)]),
            patterns: vec!["src/mask.rs".to_owned()],
        },
    ];
    assert_eq!(
        surviving_patterns(&entries, Some(&snapshot)),
        vec!["src/lib.rs".to_owned(), "src/mask.rs".to_owned()],
    );
}

#[test]
fn entries_for_picks_the_period_bucket() {
    let entry = |pattern: &str| RuleEntry {
        on: None,
        patterns: vec![pattern.to_owned()],
    };
    let rules = RuleSet {
        midnight: vec![entry("midnight/*")],
        morning: vec![entry("morning/*")],
        early_afternoon: vec![entry("early/*")],
        late_afternoon: vec![entry("late/*")],
        evening: vec![entry("evening/*")],
    };
    assert_eq!(
        rules.entries_for(Period::Morning)[0].patterns,
        vec!["morning/*".to_owned()],
    );
    assert_eq!(
        rules.entries_for(Period::Evening)[0].patterns,
        vec!["evening/*".to_owned()],
    );
    assert_eq!(
        rules.entries_for(Period::Midnight)[0].patterns,
        vec!["midnight/*".to_owned()],
    );
}

#[test]
fn keep_existing_filters_to_regular_files() {
    let found = vec![
        "src/lib.rs".to_owned(),
        "no_such_file_anywhere".to_owned(),
        "src".to_owned(),
        "src/mask.rs".to_owned(),
    ];
    assert_eq!(
        keep_existing(&found),
        vec!["src/lib.rs".to_owned(), "src/mask.rs".to_owned()],
    );
}

#[test]
fn resolution_is_idempotent_on_identical_inputs() {
    let snapshot = clear_sky_snapshot();
    let entries = vec![
        RuleEntry {
            on: Some(vec![Cond::Id(800), Cond::Main(WeatherMain::Mist)]),
            patterns: vec!["src/[alm]*.rs".to_owned()],
        },
        RuleEntry {
            on: None,
            patterns: vec!["src/lib.rs".to_owned()],
        },
    ];
    let first = surviving_patterns(&entries, Some(&snapshot));
    let second = surviving_patterns(&entries, Some(&snapshot));
    assert_eq!(first, second);
    let mut resolved_first = resolve(&entries, Some(&snapshot));
    let mut resolved_second = resolve(&entries, Some(&snapshot));
    resolved_first.sort();
    resolved_second.sort();
    assert_eq!(resolved_first, resolved_second);
}

#[test]
fn validate_patterns_accepts_well_formed_globs() {
    let patterns = vec!["~/Pictures/*.jpg".to_owned(), "src/[alm]*.rs".to_owned()];
    assert_eq!(validate_patterns(&patterns), Ok(()));
}

#[test]
fn validate_patterns_rejects_ill_formed_glob() {
    let patterns = vec!["ok/*.png".to_owned(), "broken[".to_owned()];
    assert!(validate_patterns(&patterns).is_err());
}
