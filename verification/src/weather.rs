//! Weather snapshots and the condition filters that rule entries carry.

use crate::text::str_eq;
use vstd::prelude::*;

verus! {

/// Coarse weather category reported by the weather provider.
#[derive(Clone, Copy, Debug, PartialEq, Eq, Structural)]
pub enum WeatherMain {
    Thunderstorm,
    Dizzle,
    Rain,
    Snow,
    Mist,
    Smoke,
    Haze,
    Dust,
    Fog,
    Sand,
    Ash,
    Squall,
    Tornado,
    Clear,
    Clouds,
}

/// The label of a category, as the provider and the configuration spell it.
pub open spec fn main_name(m: WeatherMain) -> Seq<char> {
    match m {
        WeatherMain::Thunderstorm => "Thunderstorm"@,
        WeatherMain::Dizzle => "Dizzle"@,
        WeatherMain::Rain => "Rain"@,
        WeatherMain::Snow => "Snow"@,
        WeatherMain::Mist => "Mist"@,
        WeatherMain::Smoke => "Smoke"@,
        WeatherMain::Haze => "Haze"@,
        WeatherMain::Dust => "Dust"@,
        WeatherMain::Fog => "Fog"@,
        WeatherMain::Sand => "Sand"@,
        WeatherMain::Ash => "Ash"@,
        WeatherMain::Squall => "Squall"@,
        WeatherMain::Tornado => "Tornado"@,
        WeatherMain::Clear => "Clear"@,
        WeatherMain::Clouds => "Clouds"@,
    }
}

impl WeatherMain {
    /// The category's label.
    pub fn name(&self) -> (r: &'static str)
        ensures
            r@ == main_name(*self),
    {
        match self {
            WeatherMain::Thunderstorm => "Thunderstorm",
            WeatherMain::Dizzle => "Dizzle",
            WeatherMain::Rain => "Rain",
            WeatherMain::Snow => "Snow",
            WeatherMain::Mist => "Mist",
            WeatherMain::Smoke => "Smoke",
            WeatherMain::Haze => "Haze",
            WeatherMain::Dust => "Dust",
            WeatherMain::Fog => "Fog",
            WeatherMain::Sand => "Sand",
            WeatherMain::Ash => "Ash",
            WeatherMain::Squall => "Squall",
            WeatherMain::Tornado => "Tornado",
            WeatherMain::Clear => "Clear",
            WeatherMain::Clouds => "Clouds",
        }
    }

    /// Parses a category label; `None` exactly when the label names no known
    /// category, so that an unknown label can be rejected when the
    /// configuration is loaded.
    pub fn from_name(s: &str) -> (r: Option<WeatherMain>)
        ensures
            match r {
                Some(m) => main_name(m) == s@,
                None => forall|m: WeatherMain| main_name(m) != s@,
            },
    {
        if str_eq(s, "Thunderstorm") {
            Some(WeatherMain::Thunderstorm)
        } else if str_eq(s, "Dizzle") {
            Some(WeatherMain::Dizzle)
        } else if str_eq(s, "Rain") {
            Some(WeatherMain::Rain)
        } else if str_eq(s, "Snow") {
            Some(WeatherMain::Snow)
        } else if str_eq(s, "Mist") {
            Some(WeatherMain::Mist)
        } else if str_eq(s, "Smoke") {
            Some(WeatherMain::Smoke)
        } else if str_eq(s, "Haze") {
            Some(WeatherMain::Haze)
        } else if str_eq(s, "Dust") {
            Some(WeatherMain::Dust)
        } else if str_eq(s, "Fog") {
            Some(WeatherMain::Fog)
        } else if str_eq(s, "Sand") {
            Some(WeatherMain::Sand)
        } else if str_eq(s, "Ash") {
            Some(WeatherMain::Ash)
        } else if str_eq(s, "Squall") {
            Some(WeatherMain::Squall)
        } else if str_eq(s, "Tornado") {
            Some(WeatherMain::Tornado)
        } else if str_eq(s, "Clear") {
            Some(WeatherMain::Clear)
        } else if str_eq(s, "Clouds") {
            Some(WeatherMain::Clouds)
        } else {
            None
        }
    }
}

/// A criterion matching weather by numeric code or by category label.
#[derive(Clone, Copy, Debug, PartialEq, Eq, Structural)]
pub enum Cond {
    Id(u64),
    Main(WeatherMain),
}

/// One condition record of a snapshot: the provider-defined numeric code, the
/// coarse category, and the provider's free-text description.
#[derive(Clone, Debug)]
pub struct Weather {
    pub id: u64,
    pub main: WeatherMain,
    pub description: String,
}

/// A snapshot of the current conditions: zero or more condition records
/// (providers may report compound conditions, e.g. rain and mist at once).
#[derive(Clone, Debug)]
pub struct CurrentWeatherData {
    weather: Vec<Weather>,
}

impl View for CurrentWeatherData {
    type V = Seq<Weather>;

    closed spec fn view(&self) -> Seq<Weather> {
        self.weather@
    }
}

/// Whether one filter value accepts one condition record: equality of the
/// numeric code, or equality of the category.
pub open spec fn cond_matches(cond: Cond, w: Weather) -> bool {
    match cond {
        Cond::Id(id) => w.id == id,
        Cond::Main(main) => w.main == main,
    }
}

/// Whether a snapshot satisfies a filter set: at least one condition in the
/// snapshot satisfies at least one filter value (logical OR across both axes).
pub open spec fn snapshot_matches(snapshot: Seq<Weather>, conds: Seq<Cond>) -> bool {
    exists|i: int, j: int|
        0 <= i < snapshot.len() && 0 <= j < conds.len() && cond_matches(conds[j], snapshot[i])
}

impl CurrentWeatherData {
    /// Builds a snapshot from condition records.
    pub fn new(weather: Vec<Weather>) -> (r: Self)
        ensures
            r@ == weather@,
    {
        CurrentWeatherData { weather }
    }

    /// The condition records of the snapshot.
    pub fn weather(&self) -> (r: &Vec<Weather>)
        ensures
            r@ == self@,
    {
        &self.weather
    }

    /// Whether the snapshot satisfies the filter set.
    pub fn matches(&self, conds: &[Cond]) -> (r: bool)
        ensures
            r == snapshot_matches(self@, conds@),
    {
        let nw: usize = self.weather.len();
        let nc: usize = conds.len();
        let mut i: usize = 0;
        while i < nw
            invariant
                i <= nw,
                nw == self@.len(),
                nc == conds@.len(),
                forall|a: int, b: int|
                    0 <= a < i && 0 <= b < nc ==> !cond_matches(conds@[b], self@[a]),
            decreases nw - i,
        {
            let w = &self.weather[i];
            let mut j: usize = 0;
            while j < nc
                invariant
                    j <= nc,
                    i < nw,
                    nw == self@.len(),
                    nc == conds@.len(),
                    *w == self@[i as int],
                    forall|b: int| 0 <= b < j ==> !cond_matches(conds@[b], self@[i as int]),
                    forall|a: int, b: int|
                        0 <= a < i && 0 <= b < nc ==> !cond_matches(conds@[b], self@[a]),
                decreases nc - j,
            {
                let matched: bool = match conds[j] {
                    Cond::Id(id) => w.id == id,
                    Cond::Main(main) => w.main == main,
                };
                if matched {
                    assert(cond_matches(conds@[j as int], self@[i as int]));
                    return true;
                }
                j += 1;
            }
            i += 1;
        }
        false
    }
}

/// The synthetic "clear sky" fallback snapshot, used when no weather data
/// could be retrieved: one record with code 800 and category `Clear`.
impl Default for CurrentWeatherData {
    fn default() -> (r: Self)
        ensures
            r@.len() == 1,
            r@[0].id == 800,
            r@[0].main == WeatherMain::Clear,
            r@[0].description@ == "clear sky (default value from sky-color-wallpaper)"@,
    {
        let mut weather: Vec<Weather> = Vec::new();
        weather.push(
            Weather {
                id: 800,
                main: WeatherMain::Clear,
                description: "clear sky (default value from sky-color-wallpaper)".to_owned(),
            },
        );
        CurrentWeatherData { weather }
    }
}

/// The snapshot a run goes on with after a fetch: the fetched conditions, or
/// the synthetic "clear sky" fallback when the fetch failed. The failure's
/// description is left to the caller to log.
pub fn weather_or_default(fetched: Result<CurrentWeatherData, String>) -> (r: CurrentWeatherData)
    ensures
        match fetched {
            Ok(w) => r@ == w@,
            Err(_) => r@.len() == 1 && r@[0].id == 800 && r@[0].main == WeatherMain::Clear
                && r@[0].description@ == "clear sky (default value from sky-color-wallpaper)"@,
        },
{
    match fetched {
        Ok(w) => w,
        Err(_) => CurrentWeatherData::default(),
    }
}

/// If a filter set holds a numeric code equal to some condition's code in the
/// snapshot, the filter set matches the snapshot, whatever category filters
/// stand beside that code.
pub proof fn lemma_code_filter_matches(snapshot: Seq<Weather>, conds: Seq<Cond>, i: int, j: int)
    requires
        0 <= i < snapshot.len(),
        0 <= j < conds.len(),
        conds[j] == Cond::Id(snapshot[i].id),
    ensures
        snapshot_matches(snapshot, conds),
{
    assert(cond_matches(conds[j], snapshot[i]));
}

} // verus!
