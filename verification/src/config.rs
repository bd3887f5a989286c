use vstd::prelude::*;

use crate::filter::{lemma_kept_records_are_outdated, run_filters, Days, EconomySet, Filter, Filters};
use crate::searcher::RecordView;
use crate::mode;
use crate::patterns::{regex_set_compiles, PatternSet};
use crate::stations::Economy;
use crate::strings::str_equals;

verus! {

#[verifier::external_type_specification]
#[verifier::external_body]
pub struct ExParseIntError(std::num::ParseIntError);

/// Whether `c` is an ASCII decimal digit.
pub open spec fn is_digit(c: char) -> bool {
    '0' <= c <= '9'
}

/// The value of a string of decimal digits.
pub open spec fn digits_value(s: Seq<char>) -> int
    decreases s.len(),
{
    if s.len() == 0 {
        0
    } else {
        digits_value(s.drop_last()) * 10 + (s.last() as int - '0' as int)
    }
}

/// The number an unsigned decimal string denotes: an optional `+` and one or more
/// ASCII digits, nothing else.
pub open spec fn decimal_value(s: Seq<char>) -> Option<int> {
    let digits = if s.len() > 0 && s[0] == '+' {
        s.drop_first()
    } else {
        s
    };
    if digits.len() > 0 && (forall|i: int| 0 <= i < digits.len() ==> is_digit(#[trigger] digits[i])) {
        Some(digits_value(digits))
    } else {
        None
    }
}

/// Calls `str::parse::<usize>`. As its documentation says, it accepts an optional `+`
/// followed by decimal digits only, and fails when the value does not fit.
#[verifier::external_body]
fn parse_usize(s: &str) -> (res: Result<usize, std::num::ParseIntError>)
    ensures
        match res {
            Ok(n) => decimal_value(s@) == Some(n as int),
            Err(_) => !(decimal_value(s@) matches Some(v) && v <= usize::MAX),
        },
{
    s.parse::<usize>()
}

/// Why the configuration could not be used.
#[derive(Debug)]
pub enum ConfigError {
    /// A pattern of `exclude_names` does not compile.
    ExcludeNames(regex::Error),
    /// A pattern of `exclude_systems` does not compile.
    ExcludeSystems(regex::Error),
    /// The maximum number of entries given on the command line is not a number.
    MaxEntries(std::num::ParseIntError),
}

/// After how many days each part of a station's data counts as outdated; a part
/// without a threshold is not checked.
#[derive(Debug, Clone, Copy, PartialEq, Eq, Structural)]
pub struct OutdatedDays {
    pub information: Option<i64>,
    pub market: Option<i64>,
    pub shipyard: Option<i64>,
    pub outfitting: Option<i64>,
}

/// The filter a threshold calls for, if any.
pub open spec fn days_filter(threshold: Option<i64>, make: spec_fn(i64) -> Days) -> Seq<Filter> {
    match threshold {
        Some(d) => seq![Filter::Days(make(d))],
        None => Seq::empty(),
    }
}

impl OutdatedDays {
    /// The filters the thresholds call for: one per threshold that is set, then
    /// the condition that some part is outdated.
    pub open spec fn spec_filters(self) -> Seq<Filter> {
        days_filter(self.information, |d: i64| Days::Information(d))
            + days_filter(self.market, |d: i64| Days::Market(d))
            + days_filter(self.shipyard, |d: i64| Days::Shipyard(d))
            + days_filter(self.outfitting, |d: i64| Days::Outfitting(d))
            + seq![Filter::Outdated]
    }

    fn filter(&self, filters: &mut Filters)
        ensures
            final(filters)@ == old(filters)@ + self.spec_filters(),
    {
        let ghost start = filters@;
        if let Some(days) = self.information {
            filters.add(Filter::Days(Days::Information(days)));
        }
        assert(filters@ == start + days_filter(self.information, |d: i64| Days::Information(d)));
        let ghost s1 = filters@;
        if let Some(days) = self.market {
            filters.add(Filter::Days(Days::Market(days)));
        }
        assert(filters@ == s1 + days_filter(self.market, |d: i64| Days::Market(d)));
        let ghost s2 = filters@;
        if let Some(days) = self.shipyard {
            filters.add(Filter::Days(Days::Shipyard(days)));
        }
        assert(filters@ == s2 + days_filter(self.shipyard, |d: i64| Days::Shipyard(d)));
        let ghost s3 = filters@;
        if let Some(days) = self.outfitting {
            filters.add(Filter::Days(Days::Outfitting(days)));
        }
        assert(filters@ == s3 + days_filter(self.outfitting, |d: i64| Days::Outfitting(d)));
        filters.add(Filter::Outdated);
        assert(filters@ =~= start + self.spec_filters());
    }
}

/// Each threshold calls for the day filter of its own part, with that threshold,
/// and no other: the filters hold `Days::Market(d)` exactly when the market
/// threshold is `d`, and so for each part. The last filter keeps only records
/// with an outdated part.
pub proof fn lemma_thresholds_filter_their_own_parts(od: OutdatedDays, d: i64)
    ensures
        od.spec_filters().contains(Filter::Days(Days::Information(d))) <==> od.information == Some(d),
        od.spec_filters().contains(Filter::Days(Days::Market(d))) <==> od.market == Some(d),
        od.spec_filters().contains(Filter::Days(Days::Shipyard(d))) <==> od.shipyard == Some(d),
        od.spec_filters().contains(Filter::Days(Days::Outfitting(d))) <==> od.outfitting == Some(d),
        od.spec_filters().last() == Filter::Outdated,
{
    let a = days_filter(od.information, |d: i64| Days::Information(d));
    let b = days_filter(od.market, |d: i64| Days::Market(d));
    let c = days_filter(od.shipyard, |d: i64| Days::Shipyard(d));
    let e = days_filter(od.outfitting, |d: i64| Days::Outfitting(d));
    let fs = od.spec_filters();
    assert(fs == a + b + c + e + seq![Filter::Outdated]);
    assert forall|i: int| 0 <= i < fs.len() implies (#[trigger] fs[i] matches Filter::Days(x) && match x {
        Days::Information(v) => od.information == Some(v),
        Days::Market(v) => od.market == Some(v),
        Days::Shipyard(v) => od.shipyard == Some(v),
        Days::Outfitting(v) => od.outfitting == Some(v),
    }) || fs[i] == Filter::Outdated by {
        if i < a.len() {
            assert(fs[i] == a[i]);
        } else if i < a.len() + b.len() {
            assert(fs[i] == b[i - a.len()]);
        } else if i < a.len() + b.len() + c.len() {
            assert(fs[i] == c[i - a.len() - b.len()]);
        } else if i < a.len() + b.len() + c.len() + e.len() {
            assert(fs[i] == e[i - a.len() - b.len() - c.len()]);
        }
    }
    if od.information == Some(d) {
        assert(fs[0] == Filter::Days(Days::Information(d)));
    }
    if od.market == Some(d) {
        assert(fs[a.len() as int] == Filter::Days(Days::Market(d)));
    }
    if od.shipyard == Some(d) {
        assert(fs[(a.len() + b.len()) as int] == Filter::Days(Days::Shipyard(d)));
    }
    if od.outfitting == Some(d) {
        assert(fs[(a.len() + b.len() + c.len()) as int] == Filter::Days(Days::Outfitting(d)));
    }
}

/// How the configuration says the tool runs.
#[derive(Debug, Clone, Copy, PartialEq, Eq, Structural)]
pub enum Mode {
    Oneshot,
    Update,
}

impl Default for Mode {
    fn default() -> (res: Mode)
        ensures
            res == Mode::Oneshot,
    {
        Mode::Oneshot
    }
}

/// Where distances are measured from: the commander's position, or Sol.
#[derive(Debug, Clone, Copy, PartialEq, Eq, Structural)]
pub enum Origin {
    Current,
    Sol,
}

impl Default for Origin {
    fn default() -> (res: Origin)
        ensures
            res == Origin::Current,
    {
        Origin::Current
    }
}

/// Keep stations with one of these economies (or, if asked, second economies).
#[derive(Debug, Clone)]
pub struct EconomyFilter {
    pub list: Vec<Economy>,
    pub include_secondary: bool,
}

impl EconomyFilter {
    fn filter(&self, filters: &mut Filters)
        ensures
            final(filters)@.len() == old(filters)@.len() + 1,
            final(filters)@.take(old(filters)@.len() as int) == old(filters)@,
            final(filters)@.last() matches Filter::Economy(set, secondary) && set@ == self.list@.to_set()
                && secondary == self.include_secondary,
    {
        let set = EconomySet::from_list(&self.list);
        filters.add(Filter::Economy(set, self.include_secondary));
    }
}

/// Keep only stations with a large landing pad, when `l_pad_only` holds.
#[derive(Debug, Clone, Copy, PartialEq, Eq, Structural)]
pub struct PadSize {
    pub l_pad_only: bool,
}

impl PadSize {
    pub open spec fn spec_filters(self) -> Seq<Filter> {
        if self.l_pad_only {
            seq![Filter::LPadOnly]
        } else {
            Seq::empty()
        }
    }

    fn filter(&self, filters: &mut Filters)
        ensures
            final(filters)@ == old(filters)@ + self.spec_filters(),
    {
        if self.l_pad_only {
            filters.add(Filter::LPadOnly);
        }
        assert(filters@ =~= old(filters)@ + self.spec_filters());
    }
}

/// Keep planetary stations only when `allowed` holds.
#[derive(Debug, Clone, Copy, PartialEq, Eq, Structural)]
pub struct Planetary {
    pub allowed: bool,
}

impl Planetary {
    pub open spec fn spec_filters(self) -> Seq<Filter> {
        if !self.allowed {
            seq![Filter::IgnorePlanetary]
        } else {
            Seq::empty()
        }
    }

    fn filter(&self, filters: &mut Filters)
        ensures
            final(filters)@ == old(filters)@ + self.spec_filters(),
    {
        if !self.allowed {
            filters.add(Filter::IgnorePlanetary);
        }
        assert(filters@ =~= old(filters)@ + self.spec_filters());
    }
}

/// The views of a list of strings.
pub open spec fn string_views(list: Seq<String>) -> Seq<Seq<char>> {
    list.map_values(|s: String| s@)
}

/// The conditions on station names, economies, pads and planets. The condition on
/// the distance to the arrival point is the caller's.
#[derive(Debug, Clone)]
pub struct FilterConfig {
    pub exclude_names: Vec<String>,
    pub exclude_systems: Vec<String>,
    pub economy: Option<EconomyFilter>,
    pub pad_size: Option<PadSize>,
    pub planetary: Option<Planetary>,
}

/// `fs` are the filters of a filter configuration: names, systems, economy, pads, planets.
pub open spec fn filter_config_filters(fc: FilterConfig, fs: Seq<Filter>) -> bool {
    let e: int = if fc.economy is Some {
        1
    } else {
        0
    };
    let pads = match fc.pad_size {
        Some(p) => p.spec_filters(),
        None => Seq::empty(),
    };
    let planets = match fc.planetary {
        Some(p) => p.spec_filters(),
        None => Seq::empty(),
    };
    &&& fs.len() == 2 + e + pads.len() + planets.len()
    &&& fs[0] matches Filter::StationName(s) && s.patterns() == string_views(fc.exclude_names@)
    &&& fs[1] matches Filter::SystemName(s) && s.patterns() == string_views(fc.exclude_systems@)
    &&& (fc.economy matches Some(ef) ==> (fs[2] matches Filter::Economy(set, secondary) && set@
        == ef.list@.to_set() && secondary == ef.include_secondary))
    &&& fs.skip(2 + e) == pads + planets
}

impl FilterConfig {
    fn filter(&self, filters: &mut Filters) -> (res: Result<(), ConfigError>)
        ensures
            match res {
                Ok(()) => final(filters)@.len() >= old(filters)@.len() && final(filters)@.take(
                    old(filters)@.len() as int,
                ) == old(filters)@ && filter_config_filters(
                    *self,
                    final(filters)@.skip(old(filters)@.len() as int),
                ),
                Err(ConfigError::ExcludeNames(_)) => final(filters)@ == old(filters)@,
                Err(ConfigError::ExcludeSystems(_)) => final(filters)@.len() == old(filters)@.len()
                    + 1 && final(filters)@.take(old(filters)@.len() as int) == old(filters)@
                    && (final(filters)@.last() matches Filter::StationName(s) && s.patterns()
                    == string_views(self.exclude_names@)),
                Err(ConfigError::MaxEntries(_)) => false,
            },
            res is Ok <==> self.patterns_compile(),
            res matches Err(ConfigError::ExcludeNames(_)) <==> !regex_set_compiles(
                string_views(self.exclude_names@),
            ),
    {
        let ghost start = filters@;
        let names = self.exclude_names()?;
        filters.add(Filter::StationName(names));
        let systems = self.exclude_systems()?;
        filters.add(Filter::SystemName(systems));
        let ghost after_names = filters@;
        assert(after_names.take(start.len() as int) == start);
        assert(self.patterns_compile());

        if let Some(ref f) = self.economy {
            f.filter(filters);
        }
        let ghost after_economy = filters@;
        if let Some(ref f) = self.pad_size {
            f.filter(filters);
        }
        let ghost after_pads = filters@;
        if let Some(ref f) = self.planetary {
            f.filter(filters);
        }
        proof {
            let e: int = if self.economy is Some {
                1
            } else {
                0
            };
            let pads = match self.pad_size {
                Some(p) => p.spec_filters(),
                None => Seq::empty(),
            };
            let planets = match self.planetary {
                Some(p) => p.spec_filters(),
                None => Seq::empty(),
            };
            let fs = filters@.skip(start.len() as int);
            assert(after_economy.len() == after_names.len() + e);
            assert(after_economy.take(after_names.len() as int) == after_names);
            assert(after_pads =~= after_economy + pads);
            assert(filters@ =~= after_pads + planets);
            assert(filters@.take(start.len() as int) =~= start);
            assert(fs[0] == after_names[start.len() as int]);
            assert(fs[1] == after_names[start.len() as int + 1]);
            if self.economy is Some {
                assert(fs[2] == after_economy.last());
            }
            assert(fs.skip(2 + e) =~= pads + planets);
        }
        Ok(())
    }

    /// Whether both pattern lists compile.
    pub open spec fn patterns_compile(self) -> bool {
        &&& regex_set_compiles(string_views(self.exclude_names@))
        &&& regex_set_compiles(string_views(self.exclude_systems@))
    }

    /// The compiled station name patterns.
    pub fn exclude_names(&self) -> (res: Result<PatternSet, ConfigError>)
        ensures
            match res {
                Ok(s) => s.patterns() == string_views(self.exclude_names@),
                Err(e) => e is ExcludeNames,
            },
            res is Ok <==> regex_set_compiles(string_views(self.exclude_names@)),
    {
        match PatternSet::compile(&self.exclude_names) {
            Ok(s) => Ok(s),
            Err(e) => Err(ConfigError::ExcludeNames(e)),
        }
    }

    /// The compiled system name patterns.
    pub fn exclude_systems(&self) -> (res: Result<PatternSet, ConfigError>)
        ensures
            match res {
                Ok(s) => s.patterns() == string_views(self.exclude_systems@),
                Err(e) => e is ExcludeSystems,
            },
            res is Ok <==> regex_set_compiles(string_views(self.exclude_systems@)),
    {
        match PatternSet::compile(&self.exclude_systems) {
            Ok(s) => Ok(s),
            Err(e) => Err(ConfigError::ExcludeSystems(e)),
        }
    }
}

/// The settings of the tool, from the configuration file and the command line.
/// The maximum distance is the caller's, with the other geometry.
#[derive(Debug, Clone)]
pub struct Config {
    pub days: OutdatedDays,
    pub filter: FilterConfig,
    pub max_entries: usize,
    pub mode: Mode,
    pub pos_origin: Origin,
}

/// The run mode a configured mode stands for.
pub open spec fn run_mode(m: Mode) -> mode::Mode {
    match m {
        Mode::Oneshot => mode::Mode::Oneshot,
        Mode::Update => mode::Mode::Update,
    }
}

/// `fs` are the filters of a configuration: the age thresholds, then the filter configuration's.
pub open spec fn config_filters(cfg: Config, fs: Seq<Filter>) -> bool {
    let days = cfg.days.spec_filters();
    &&& fs.len() >= days.len()
    &&& fs.take(days.len() as int) == days
    &&& filter_config_filters(cfg.filter, fs.skip(days.len() as int))
}

impl Config {
    pub fn new(
        days: OutdatedDays,
        filter: FilterConfig,
        max_entries: usize,
        mode: Mode,
        pos_origin: Origin,
    ) -> (res: Config)
        ensures
            res == (Config { days, filter, max_entries, mode, pos_origin }),
    {
        Config { days, filter, max_entries, mode, pos_origin }
    }

    /// The filters the configuration calls for, but the one on the distance from
    /// the origin: the age thresholds, then names, systems, economy, pads, planets.
    pub fn filter(&self) -> (res: Result<Filters, ConfigError>)
        ensures
            match res {
                Ok(fs) => config_filters(*self, fs@),
                Err(e) => e is ExcludeNames || e is ExcludeSystems,
            },
            res is Ok <==> self.filter.patterns_compile(),
            res matches Err(ConfigError::ExcludeNames(_)) <==> !regex_set_compiles(
                string_views(self.filter.exclude_names@),
            ),
    {
        let mut filters = Filters::new();
        self.days.filter(&mut filters);
        let ghost after_days = filters@;
        match self.filter.filter(&mut filters) {
            Ok(()) => {},
            Err(e) => return Err(e),
        }
        proof {
            let n = self.days.spec_filters().len() as int;
            assert(after_days =~= self.days.spec_filters());
            assert(filters@.take(n) =~= after_days);
        }
        Ok(filters)
    }

    pub fn filter_config(&self) -> (res: &FilterConfig)
        ensures
            *res == self.filter,
    {
        &self.filter
    }

    /// Where the position that distances are measured from comes from.
    pub fn get_loc_func(&self) -> (res: Origin)
        ensures
            res == self.pos_origin,
    {
        self.pos_origin
    }

    pub fn max_entries(&self) -> (res: usize)
        ensures
            res == self.max_entries,
    {
        self.max_entries
    }

    pub fn mode(&self) -> (res: mode::Mode)
        ensures
            res == run_mode(self.mode),
    {
        match self.mode {
            Mode::Oneshot => mode::Mode::Oneshot,
            Mode::Update => mode::Mode::Update,
        }
    }

    /// Applies the command line options other than the maximum distance: the maximum
    /// number of entries, the mode (`oneshot` or `update`) and the origin (`current`
    /// or `Sol`). When the number does not parse, nothing changes.
    pub fn apply_args(
        &mut self,
        max_entries: Option<&str>,
        mode: Option<&str>,
        pos_origin: Option<&str>,
    ) -> (res: Result<(), ConfigError>)
        requires
            mode matches Some(m) ==> m@ == "oneshot"@ || m@ == "update"@,
            pos_origin matches Some(o) ==> o@ == "current"@ || o@ == "Sol"@,
        ensures
            res is Err <==> (max_entries matches Some(s) && !(decimal_value(s@) matches Some(v) && v
                <= usize::MAX)),
            res matches Err(e) ==> e is MaxEntries && *final(self) == *old(self),
            res is Ok ==> {
                &&& final(self).days == old(self).days
                &&& final(self).filter == old(self).filter
                &&& final(self).max_entries == (match max_entries {
                    Some(s) => decimal_value(s@).unwrap(),
                    None => old(self).max_entries as int,
                })
                &&& final(self).mode == (match mode {
                    Some(m) => if m@ == "oneshot"@ {
                        Mode::Oneshot
                    } else {
                        Mode::Update
                    },
                    None => old(self).mode,
                })
                &&& final(self).pos_origin == (match pos_origin {
                    Some(o) => if o@ == "current"@ {
                        Origin::Current
                    } else {
                        Origin::Sol
                    },
                    None => old(self).pos_origin,
                })
            },
    {
        if let Some(s) = max_entries {
            match parse_usize(s) {
                Ok(n) => {
                    self.max_entries = n;
                },
                Err(e) => {
                    return Err(ConfigError::MaxEntries(e));
                },
            }
        }
        if let Some(m) = mode {
            if str_equals(m, "oneshot") {
                self.mode = Mode::Oneshot;
            } else {
                self.mode = Mode::Update;
            }
        }
        if let Some(o) = pos_origin {
            if str_equals(o, "current") {
                self.pos_origin = Origin::Current;
            } else {
                self.pos_origin = Origin::Sol;
            }
        }
        Ok(())
    }
}

/// Every station that the filters of a configuration keep has outdated data.
pub proof fn lemma_config_lists_only_outdated<C, D>(cfg: Config, fs: Seq<Filter>, r: RecordView<C, D>)
    requires
        config_filters(cfg, fs),
        run_filters(fs, r).0,
    ensures
        run_filters(fs, r).1.any_outdated(),
{
    let days = cfg.days.spec_filters();
    let k = days.len() - 1;
    assert(days[k] == Filter::Outdated);
    assert(fs.take(days.len() as int)[k] == fs[k]);
    assert(fs.contains(Filter::Outdated));
    lemma_kept_records_are_outdated(fs, r);
}

/// The filters of a configuration hold the day filter `Days::Market(d)` exactly
/// when the market threshold is `d`, and so for each part: the name, system,
/// economy, pad and planet filters are no day filters.
pub proof fn lemma_config_day_filters_follow_thresholds(cfg: Config, fs: Seq<Filter>, d: i64)
    requires
        config_filters(cfg, fs),
    ensures
        fs.contains(Filter::Days(Days::Information(d))) <==> cfg.days.information == Some(d),
        fs.contains(Filter::Days(Days::Market(d))) <==> cfg.days.market == Some(d),
        fs.contains(Filter::Days(Days::Shipyard(d))) <==> cfg.days.shipyard == Some(d),
        fs.contains(Filter::Days(Days::Outfitting(d))) <==> cfg.days.outfitting == Some(d),
{
    lemma_thresholds_filter_their_own_parts(cfg.days, d);
    let days = cfg.days.spec_filters();
    let n = days.len() as int;
    let rest = fs.skip(n);
    let fc = cfg.filter;
    let e: int = if fc.economy is Some {
        1
    } else {
        0
    };
    let pads = match fc.pad_size {
        Some(p) => p.spec_filters(),
        None => Seq::empty(),
    };
    let planets = match fc.planetary {
        Some(p) => p.spec_filters(),
        None => Seq::empty(),
    };
    assert forall|i: int| 0 <= i < rest.len() implies !(#[trigger] rest[i] is Days) by {
        if i >= 2 + e {
            assert(rest[i] == rest.skip(2 + e)[i - 2 - e]);
            let t = pads + planets;
            assert(t[i - 2 - e] == rest[i]);
            if i - 2 - e < pads.len() {
                assert(t[i - 2 - e] == pads[i - 2 - e]);
            } else {
                assert(t[i - 2 - e] == planets[i - 2 - e - pads.len()]);
            }
        }
    }
    assert(fs =~= days + rest) by {
        assert(fs.take(n) == days);
    }
    assert forall|x: Days| fs.contains(Filter::Days(x)) <==> days.contains(Filter::Days(x)) by {
        if fs.contains(Filter::Days(x)) {
            let i = choose|i: int| 0 <= i < fs.len() && fs[i] == Filter::Days(x);
            if i >= n {
                assert(rest[i - n] == fs[i]);
            } else {
                assert(days[i] == fs[i]);
            }
        }
        if days.contains(Filter::Days(x)) {
            let i = choose|i: int| 0 <= i < days.len() && days[i] == Filter::Days(x);
            assert(fs[i] == days[i]);
        }
    }
}

} // verus!
