//! Rule entries, the rule table, and candidate resolution.
//!
//! Resolution follows the aggregate-all policy: every entry of the period
//! whose filter matches (or is absent) contributes its patterns, in declared
//! order, rather than only the first matching entry.

use crate::period::Period;
use crate::weather::{snapshot_matches, Cond, CurrentWeatherData, Weather};
use vstd::prelude::*;

verus! {

/// One rule entry: an optional weather condition filter (absent means the
/// entry matches unconditionally) and the glob patterns it contributes.
#[derive(Clone, Debug)]
pub struct RuleEntry {
    pub on: Option<Vec<Cond>>,
    pub patterns: Vec<String>,
}

/// The rule table: one ordered entry list per period.
#[derive(Clone, Debug)]
pub struct RuleSet {
    pub midnight: Vec<RuleEntry>,
    pub morning: Vec<RuleEntry>,
    pub early_afternoon: Vec<RuleEntry>,
    pub late_afternoon: Vec<RuleEntry>,
    pub evening: Vec<RuleEntry>,
}

/// The views of a sequence of strings.
pub open spec fn views_of(strings: Seq<String>) -> Seq<Seq<char>> {
    strings.map_values(|s: String| s@)
}

/// The conditions of an optional snapshot, as an optional sequence.
pub open spec fn snapshot_view(weather: Option<&CurrentWeatherData>) -> Option<Seq<Weather>> {
    match weather {
        Some(w) => Some(w@),
        None => None,
    }
}

/// Whether a rule entry is selected: an entry with no filter always is; an
/// entry with a filter only when a snapshot is present and satisfies it.
/// Absent weather data never counts as a wildcard match.
pub open spec fn entry_selected(e: RuleEntry, weather: Option<Seq<Weather>>) -> bool {
    match e.on {
        None => true,
        Some(conds) => match weather {
            Some(snapshot) => snapshot_matches(snapshot, conds@),
            None => false,
        },
    }
}

/// The patterns an entry contributes to the pool: its own when it is
/// selected, none otherwise.
pub open spec fn entry_contribution(e: RuleEntry, weather: Option<Seq<Weather>>) -> Seq<Seq<char>> {
    if entry_selected(e, weather) {
        views_of(e.patterns@)
    } else {
        Seq::empty()
    }
}

/// The patterns surviving weather filtering: the contributions of all
/// selected entries, concatenated in declared order.
pub open spec fn surviving_patterns_spec(
    entries: Seq<RuleEntry>,
    weather: Option<Seq<Weather>>,
) -> Seq<Seq<char>>
    decreases entries.len(),
{
    if entries.len() == 0 {
        Seq::empty()
    } else {
        entry_contribution(entries[0], weather) + surviving_patterns_spec(
            entries.drop_first(),
            weather,
        )
    }
}

/// The rule entries bound to a period.
pub open spec fn entries_for_spec(rules: RuleSet, period: Period) -> Seq<RuleEntry> {
    match period {
        Period::Midnight => rules.midnight@,
        Period::Morning => rules.morning@,
        Period::EarlyAfternoon => rules.early_afternoon@,
        Period::LateAfternoon => rules.late_afternoon@,
        Period::Evening => rules.evening@,
    }
}

impl RuleSet {
    /// The entry list bound to `period`.
    pub fn entries_for(&self, period: Period) -> (r: &Vec<RuleEntry>)
        ensures
            r@ == entries_for_spec(*self, period),
    {
        match period {
            Period::Midnight => &self.midnight,
            Period::Morning => &self.morning,
            Period::EarlyAfternoon => &self.early_afternoon,
            Period::LateAfternoon => &self.late_afternoon,
            Period::Evening => &self.evening,
        }
    }
}

/// The patterns of the entries whose filter matches the snapshot or is
/// absent, in declared order. The result is a pure function of the inputs:
/// identical arguments always yield the identical pattern list.
pub fn surviving_patterns(entries: &Vec<RuleEntry>, weather: Option<&CurrentWeatherData>) -> (r:
    Vec<String>)
    ensures
        views_of(r@) == surviving_patterns_spec(entries@, snapshot_view(weather)),
{
    let ghost w = snapshot_view(weather);
    let mut acc: Vec<String> = Vec::new();
    let n: usize = entries.len();
    let mut i: usize = 0;
    proof {
        assert(entries@.skip(0) =~= entries@);
        assert(views_of(acc@) =~= Seq::<Seq<char>>::empty());
    }
    while i < n
        invariant
            i <= n,
            n == entries@.len(),
            w == snapshot_view(weather),
            views_of(acc@) + surviving_patterns_spec(entries@.skip(i as int), w)
                == surviving_patterns_spec(entries@, w),
        decreases n - i,
    {
        let e = &entries[i];
        let selected: bool = match &e.on {
            None => true,
            Some(conds) => match weather {
                Some(snapshot) => snapshot.matches(conds.as_slice()),
                None => false,
            },
        };
        assert(selected == entry_selected(entries@[i as int], w));
        let ghost prefix = views_of(acc@);
        if selected {
            let np: usize = e.patterns.len();
            let mut j: usize = 0;
            proof {
                assert(views_of(e.patterns@.take(0)) =~= Seq::<Seq<char>>::empty());
                assert(views_of(acc@) =~= prefix + views_of(e.patterns@.take(0)));
            }
            while j < np
                invariant
                    j <= np,
                    np == e.patterns@.len(),
                    e == entries@[i as int],
                    i < n,
                    n == entries@.len(),
                    views_of(acc@) == prefix + views_of(e.patterns@.take(j as int)),
                decreases np - j,
            {
                let ghost acc_prev = acc@;
                acc.push(e.patterns[j].clone());
                proof {
                    assert(acc@ == acc_prev.push(e.patterns@[j as int]));
                    assert(views_of(acc_prev.push(e.patterns@[j as int])) =~= views_of(
                        acc_prev,
                    ).push(e.patterns@[j as int]@));
                    assert(e.patterns@.take(j + 1) =~= e.patterns@.take(j as int).push(
                        e.patterns@[j as int],
                    ));
                    assert(views_of(e.patterns@.take(j + 1)) =~= views_of(
                        e.patterns@.take(j as int),
                    ).push(e.patterns@[j as int]@));
                    assert(views_of(acc@) =~= prefix + views_of(e.patterns@.take(j + 1)));
                }
                j += 1;
            }
            proof {
                assert(e.patterns@.take(np as int) =~= e.patterns@);
            }
        }
        proof {
            assert(views_of(acc@) =~= prefix + entry_contribution(entries@[i as int], w));
            assert(entries@.skip(i as int).drop_first() =~= entries@.skip(i + 1));
            assert(entries@.skip(i as int)[0] == entries@[i as int]);
            assert(surviving_patterns_spec(entries@.skip(i as int), w) == entry_contribution(
                entries@[i as int],
                w,
            ) + surviving_patterns_spec(entries@.skip(i + 1), w));
            assert(views_of(acc@) + surviving_patterns_spec(entries@.skip(i + 1), w)
                =~= surviving_patterns_spec(entries@, w));
        }
        i += 1;
    }
    proof {
        assert(entries@.skip(n as int) =~= Seq::<RuleEntry>::empty());
        assert(views_of(acc@) =~= views_of(acc@) + surviving_patterns_spec(
            entries@.skip(n as int),
            w,
        ));
    }
    acc
}

/// What `glob::Pattern::new` accepts: whether a pattern string is well-formed
/// glob syntax. The answer depends on the pattern string alone.
pub uninterp spec fn glob_pattern_ok(pattern: Seq<char>) -> bool;

/// Relies on `glob::Pattern::new`: it returns `Ok` exactly when the pattern
/// string is well-formed glob syntax, and otherwise an error describing the
/// ill-formed position.
#[verifier::external_body]
fn glob_pattern_error(pattern: &str) -> (r: Option<String>)
    ensures
        (r is None) == glob_pattern_ok(pattern@),
{
    match glob::Pattern::new(pattern) {
        Ok(_) => None,
        Err(e) => Some(format!("{}", e)),
    }
}

/// Checks every pattern against the glob parser: `Ok` exactly when all of
/// them are well-formed, otherwise the parser's message for the first
/// ill-formed one. Meant to run when the configuration is loaded, so that a
/// bad pattern is a load-time error rather than a resolve-time surprise.
pub fn validate_patterns(patterns: &Vec<String>) -> (r: Result<(), String>)
    ensures
        (r is Ok) == (forall|k: int| 0 <= k < patterns@.len() ==> glob_pattern_ok(patterns@[k]@)),
{
    let n: usize = patterns.len();
    let mut i: usize = 0;
    while i < n
        invariant
            i <= n,
            n == patterns@.len(),
            forall|k: int| 0 <= k < i ==> glob_pattern_ok(patterns@[k]@),
        decreases n - i,
    {
        if let Some(msg) = glob_pattern_error(patterns[i].as_str()) {
            return Err(msg);
        }
        i += 1;
    }
    Ok(())
}

/// Relies on `glob::glob`: the filesystem paths matching a glob pattern,
/// converted to strings. Walk entries that could not be read and paths that
/// are not valid UTF-8 are skipped. On an ill-formed pattern `glob::glob`
/// reports an error before walking, and no path is returned.
#[verifier::external_body]
fn glob_matches(pattern: &str) -> (r: Vec<String>)
    ensures
        !glob_pattern_ok(pattern@) ==> r@.len() == 0,
{
    match glob::glob(pattern) {
        Ok(paths) => paths
            .filter_map(Result::ok)
            .filter_map(|p| p.into_os_string().into_string().ok())
            .collect(),
        Err(_) => Vec::new(),
    }
}

/// Relies on `std::path::Path::is_file`: whether the path names an existing
/// regular file (symlinks followed). The answer depends on the filesystem at
/// call time.
#[verifier::external_body]
fn is_regular_file(path: &str) -> (r: bool)
{
    std::path::Path::new(path).is_file()
}

/// The elements of `full` kept by the `keep` flags, in order.
pub open spec fn kept_by(full: Seq<String>, keep: Seq<bool>) -> Seq<String>
    recommends
        full.len() == keep.len(),
    decreases full.len(),
{
    if full.len() == 0 {
        Seq::empty()
    } else {
        (if keep[0] {
            seq![full[0]]
        } else {
            Seq::empty()
        }) + kept_by(full.drop_first(), keep.drop_first())
    }
}

/// Appending one element with its flag appends that element's contribution.
proof fn lemma_kept_by_snoc(full: Seq<String>, keep: Seq<bool>, x: String, b: bool)
    requires
        full.len() == keep.len(),
    ensures
        kept_by(full.push(x), keep.push(b)) == kept_by(full, keep) + (if b {
            seq![x]
        } else {
            Seq::<String>::empty()
        }),
    decreases full.len(),
{
    if full.len() == 0 {
        assert(full.push(x).drop_first() =~= Seq::<String>::empty());
        assert(keep.push(b).drop_first() =~= Seq::<bool>::empty());
        assert(kept_by(Seq::<String>::empty(), Seq::<bool>::empty()) == Seq::<String>::empty());
        assert(kept_by(full.push(x), keep.push(b)) =~= kept_by(full, keep) + (if b {
            seq![x]
        } else {
            Seq::<String>::empty()
        }));
    } else {
        assert(full.push(x).drop_first() =~= full.drop_first().push(x));
        assert(keep.push(b).drop_first() =~= keep.drop_first().push(b));
        lemma_kept_by_snoc(full.drop_first(), keep.drop_first(), x, b);
        assert(kept_by(full.push(x), keep.push(b)) =~= kept_by(full, keep) + (if b {
            seq![x]
        } else {
            Seq::<String>::empty()
        }));
    }
}

/// Keeps, in order, the paths that name existing regular files at call time.
/// The result is the input filtered by some sequence of keep flags: a
/// subsequence, so every kept element equals an input element, with order and
/// multiplicity preserved. Which flags the filesystem answers is not fixed by
/// the contract.
pub fn keep_existing(found: &Vec<String>) -> (kept: Vec<String>)
    ensures
        exists|keep: Seq<bool>|
            keep.len() == found@.len() && kept@ == #[trigger] kept_by(found@, keep),
        kept@.len() <= found@.len(),
        forall|x: int| 0 <= x < kept@.len() ==> found@.contains(kept@[x]),
{
    let mut kept: Vec<String> = Vec::new();
    let ghost mut keep: Seq<bool> = Seq::empty();
    let n: usize = found.len();
    let mut k: usize = 0;
    proof {
        assert(found@.take(0) =~= Seq::<String>::empty());
    }
    while k < n
        invariant
            k <= n,
            n == found@.len(),
            keep.len() == k,
            kept@ == kept_by(found@.take(k as int), keep),
            kept@.len() <= k,
            forall|x: int| 0 <= x < kept@.len() ==> found@.contains(kept@[x]),
        decreases n - k,
    {
        let keep_this = is_regular_file(found[k].as_str());
        proof {
            lemma_kept_by_snoc(found@.take(k as int), keep, found@[k as int], keep_this);
            assert(found@.take(k + 1) =~= found@.take(k as int).push(found@[k as int]));
        }
        if keep_this {
            kept.push(found[k].clone());
            proof {
                assert(kept@ =~= kept_by(found@.take(k as int), keep) + seq![found@[k as int]]);
                assert(found@.contains(found@[k as int]));
            }
        } else {
            proof {
                assert(kept@ =~= kept_by(found@.take(k as int), keep)
                    + Seq::<String>::empty());
            }
        }
        proof {
            keep = keep.push(keep_this);
        }
        k += 1;
    }
    proof {
        assert(found@.take(n as int) =~= found@);
    }
    kept
}

/// Expands the surviving patterns against the filesystem, in order, and
/// keeps of each expansion the paths that are existing regular files: the
/// result is the concatenation, over the surviving patterns, of the kept
/// subsequence (see `keep_existing`) of that pattern's matches. Which
/// patterns are expanded is a pure function of the inputs; what each expands
/// to is the filesystem's answer at call time. When no pattern survives the
/// weather filtering, the candidate list is empty.
pub fn resolve(entries: &Vec<RuleEntry>, weather: Option<&CurrentWeatherData>) -> (r: Vec<String>)
    ensures
        surviving_patterns_spec(entries@, snapshot_view(weather)).len() == 0 ==> r@.len() == 0,
{
    let patterns = surviving_patterns(entries, weather);
    let mut out: Vec<String> = Vec::new();
    let n: usize = patterns.len();
    let mut i: usize = 0;
    while i < n
        invariant
            i <= n,
            n == patterns@.len(),
            views_of(patterns@) == surviving_patterns_spec(entries@, snapshot_view(weather)),
            patterns@.len() == 0 ==> out@.len() == 0,
        decreases n - i,
    {
        let found = glob_matches(patterns[i].as_str());
        let mut kept = keep_existing(&found);
        out.append(&mut kept);
        i += 1;
    }
    out
}

/// With no weather snapshot, a rule entry with a filter is never selected and
/// contributes no pattern to the pool.
pub proof fn lemma_no_weather_skips_filtered(e: RuleEntry)
    requires
        e.on is Some,
    ensures
        !entry_selected(e, None),
        entry_contribution(e, None) == Seq::<Seq<char>>::empty(),
{
}

/// With no weather snapshot, a rule list in which every entry carries a
/// filter yields no surviving pattern at all.
pub proof fn lemma_no_weather_all_filtered_empty(entries: Seq<RuleEntry>)
    requires
        forall|k: int| 0 <= k < entries.len() ==> entries[k].on is Some,
    ensures
        surviving_patterns_spec(entries, None).len() == 0,
    decreases entries.len(),
{
    if entries.len() > 0 {
        lemma_no_weather_skips_filtered(entries[0]);
        assert(forall|k: int|
            0 <= k < entries.drop_first().len() ==> entries.drop_first()[k].on is Some);
        lemma_no_weather_all_filtered_empty(entries.drop_first());
    }
}

} // verus!
