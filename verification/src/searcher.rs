use vstd::prelude::*;

use crate::filter::{lemma_filters_only_add_marks, run_filters, Filters};
use crate::journal::Visited;
use crate::stations::{Station, Stations};
use crate::time::{chrono_num_days_since, div_toward_zero, span_nanos, whole_days, Timestamp, NANOS_PER_DAY};

verus! {

/// How old one part of a station's data is, in days (absent where the station has no
/// such data), and the age that a filter marked as outdated, if any.
pub struct DaysView {
    pub age: Option<i64>,
    pub mark: Option<i64>,
}

/// How old one part of a station's data is, in days, and whether a filter has
/// marked that age as outdated.
#[derive(Debug)]
pub struct Days {
    days: Option<i64>,
    outdated: Option<i64>,
}

impl View for Days {
    type V = DaysView;

    closed spec fn view(&self) -> DaysView {
        DaysView { age: self.days, mark: self.outdated }
    }
}

impl Days {
    pub fn new(days: i64) -> (res: Days)
        ensures
            res@.age == Some(days),
            res@.mark is None,
    {
        Days { days: Some(days), outdated: None }
    }

    pub fn empty() -> (res: Days)
        ensures
            res@.age is None,
            res@.mark is None,
    {
        Days { days: None, outdated: None }
    }

    /// Marks the age as outdated when there is one and `check_outdated` holds of it.
    /// The age itself never changes, and an earlier mark is never cleared.
    pub fn check(&mut self, check_outdated: impl FnOnce(i64) -> bool)
        requires
            old(self)@.age matches Some(d) ==> call_requires(check_outdated, (d,)),
        ensures
            final(self)@.age == old(self)@.age,
            match old(self)@.age {
                None => final(self)@.mark == old(self)@.mark,
                Some(d) => exists|r: bool|
                    {
                        &&& call_ensures(check_outdated, (d,), r)
                        &&& final(self)@.mark == (if r {
                            Some(d)
                        } else {
                            old(self)@.mark
                        })
                    },
            },
    {
        if let Some(days) = self.days {
            if check_outdated(days) {
                self.outdated = Some(days);
            }
        }
    }

    pub fn outdated(&self) -> (res: Option<i64>)
        ensures
            res == self@.mark,
    {
        self.outdated
    }

    pub fn is_outdated(&self) -> (res: bool)
        ensures
            res == self@.mark is Some,
    {
        self.outdated.is_some()
    }
}

/// The whole days from `then` to `now`, as chrono counts them.
pub open spec fn age_in_days(now: Timestamp, then: Timestamp) -> i64 {
    whole_days(span_nanos(now, then)) as i64
}

/// Away from leap seconds, an age is the whole days between the two instants,
/// rounded toward zero.
pub open spec fn plain_age_ok(now: Timestamp, then: Timestamp, age: i64) -> bool {
    now.is_plain() && then.is_plain() ==> age == whole_days(now.total_nanos() - then.total_nanos())
}

/// The age of an optional update time: absent when the time is absent.
pub open spec fn optional_age(now: Timestamp, then: Option<Timestamp>) -> Option<i64> {
    match then {
        Some(t) => Some(age_in_days(now, t)),
        None => None,
    }
}

/// A station seen from the current position: whether the commander docked there,
/// and the ages of its data. The distance to it is kept by the caller.
#[derive(Debug)]
pub struct Record<'a, C, D> {
    pub station: &'a Station<C, D>,
    pub visited: bool,
    pub information_days: Days,
    pub market_days: Days,
    pub shipyard_days: Days,
    pub outfitting_days: Days,
}

/// The contents of a record.
pub struct RecordView<C, D> {
    pub station: Station<C, D>,
    pub visited: bool,
    pub information: DaysView,
    pub market: DaysView,
    pub shipyard: DaysView,
    pub outfitting: DaysView,
}

/// A condition on the records of a search: whether it keeps a record, and the
/// marks it leaves on the record's ages.
pub trait Filter<C, D> {
    /// Whether the condition keeps a record, and the record after it.
    spec fn keeps(&self, r: RecordView<C, D>) -> (bool, RecordView<C, D>);

    fn filter<'a>(&self, record: &mut Record<'a, C, D>) -> (res: bool)
        ensures
            (res, final(record)@) == self.keeps(old(record)@),
            final(record).station == old(record).station,
    ;
}

impl<'a, C, D> View for Record<'a, C, D> {
    type V = RecordView<C, D>;

    open spec fn view(&self) -> RecordView<C, D> {
        RecordView {
            station: *self.station,
            visited: self.visited,
            information: self.information_days@,
            market: self.market_days@,
            shipyard: self.shipyard_days@,
            outfitting: self.outfitting_days@,
        }
    }
}

/// The larger of a running maximum and an outdated mark.
pub open spec fn max_mark(acc: i64, d: DaysView) -> i64 {
    match d.mark {
        Some(v) => if v > acc {
            v
        } else {
            acc
        },
        None => acc,
    }
}

impl<C, D> RecordView<C, D> {
    /// Whether any of the four ages is marked outdated.
    pub open spec fn any_outdated(self) -> bool {
        ||| self.information.mark is Some
        ||| self.market.mark is Some
        ||| self.shipyard.mark is Some
        ||| self.outfitting.mark is Some
    }

    /// The largest outdated mark, starting from `i64::MIN`; a result of `i64::MIN`
    /// counts as none.
    pub open spec fn most_outdated(self) -> Option<i64> {
        let m = max_mark(
            max_mark(max_mark(max_mark(i64::MIN, self.information), self.market), self.shipyard),
            self.outfitting,
        );
        if m > i64::MIN {
            Some(m)
        } else {
            None
        }
    }
}

impl<'a, C, D> Record<'a, C, D> {
    /// The age of the most outdated part of the station's data.
    pub fn outdated(&self) -> (res: Option<i64>)
        ensures
            res == self@.most_outdated(),
    {
        let mut max = i64::MIN;

        if let Some(v) = self.information_days.outdated() {
            max = if v > max { v } else { max };
        }
        if let Some(v) = self.market_days.outdated() {
            max = if v > max { v } else { max };
        }
        if let Some(v) = self.shipyard_days.outdated() {
            max = if v > max { v } else { max };
        }
        if let Some(v) = self.outfitting_days.outdated() {
            max = if v > max { v } else { max };
        }

        if max > i64::MIN {
            Some(max)
        } else {
            None
        }
    }
}

/// The most outdated age is absent exactly when no age is marked (marks of
/// `i64::MIN` aside), and it is at least every mark.
pub proof fn lemma_most_outdated<C, D>(r: RecordView<C, D>)
    requires
        r.information.mark matches Some(v) ==> v > i64::MIN,
        r.market.mark matches Some(v) ==> v > i64::MIN,
        r.shipyard.mark matches Some(v) ==> v > i64::MIN,
        r.outfitting.mark matches Some(v) ==> v > i64::MIN,
    ensures
        r.most_outdated() is None <==> !r.any_outdated(),
        r.most_outdated() matches Some(m) ==> {
            &&& r.information.mark matches Some(v) ==> v <= m
            &&& r.market.mark matches Some(v) ==> v <= m
            &&& r.shipyard.mark matches Some(v) ==> v <= m
            &&& r.outfitting.mark matches Some(v) ==> v <= m
        },
{
}

/// The ages of a station at instant `now`, none of them marked, and whether the
/// commander docked there.
pub open spec fn fresh_view<C, D>(station: Station<C, D>, now: Timestamp, visited: Set<u64>) -> RecordView<C, D> {
    RecordView {
        station,
        visited: match station.market_id {
            Some(id) => visited.contains(id),
            None => false,
        },
        information: DaysView { age: Some(age_in_days(now, station.update_time.information)), mark: None },
        market: DaysView { age: optional_age(now, station.update_time.market), mark: None },
        shipyard: DaysView { age: optional_age(now, station.update_time.shipyard), mark: None },
        outfitting: DaysView { age: optional_age(now, station.update_time.outfitting), mark: None },
    }
}

/// Away from leap seconds, each age of the station is the whole days since its
/// update time, rounded toward zero.
pub open spec fn plain_ages_ok<C, D>(station: Station<C, D>, now: Timestamp) -> bool {
    let u = station.update_time;
    &&& plain_age_ok(now, u.information, age_in_days(now, u.information))
    &&& (u.market matches Some(t) ==> plain_age_ok(now, t, age_in_days(now, t)))
    &&& (u.shipyard matches Some(t) ==> plain_age_ok(now, t, age_in_days(now, t)))
    &&& (u.outfitting matches Some(t) ==> plain_age_ok(now, t, age_in_days(now, t)))
}

/// What the record of a station holds before any filter ran.
pub open spec fn fresh_record<'a, C, D>(
    r: Record<'a, C, D>,
    station: &'a Station<C, D>,
    now: Timestamp,
    visited: Set<u64>,
) -> bool {
    &&& r.station == station
    &&& r@ == fresh_view(*station, now, visited)
    &&& plain_ages_ok(*station, now)
}

fn optional_days(now: Timestamp, then: Option<Timestamp>) -> (res: Days)
    requires
        now.is_valid(),
        then matches Some(t) ==> t.is_valid(),
    ensures
        res@.age == optional_age(now, then),
        res@.mark is None,
        then matches Some(t) ==> plain_age_ok(now, t, res@.age.unwrap()),
{
    match then {
        Some(t) => Days::new(chrono_num_days_since(now, t)),
        None => Days::empty(),
    }
}

/// The record of one station at instant `now`, before filtering: the part of a
/// search that does not depend on distances.
pub fn make_record<'a, C, D>(station: &'a Station<C, D>, now: Timestamp, visited: &Visited) -> (res:
    Record<'a, C, D>)
    requires
        now.is_valid(),
        station.update_time.all_valid(),
    ensures
        fresh_record(res, station, now, visited@),
{
    let is_visited = match station.market_id {
        Some(id) => visited.is_visited(id),
        None => false,
    };
    let update_time = station.update_time();
    let information_days = Days::new(chrono_num_days_since(now, update_time.information()));
    let market_days = optional_days(now, update_time.market());
    let shipyard_days = optional_days(now, update_time.shipyard());
    let outfitting_days = optional_days(now, update_time.outfitting());

    Record {
        station,
        visited: is_visited,
        information_days,
        market_days,
        shipyard_days,
        outfitting_days,
    }
}

/// The records a search keeps, in the order of the stations: those within the
/// distance limits (`within`) that the filters keep, as the filters left them.
pub open spec fn search_views<C, D>(
    stations: Seq<Station<C, D>>,
    within: Seq<bool>,
    fs: Seq<crate::filter::Filter>,
    now: Timestamp,
    visited: Set<u64>,
) -> Seq<RecordView<C, D>>
    decreases stations.len(),
{
    if stations.len() == 0 {
        Seq::empty()
    } else {
        let rest = search_views(stations.drop_last(), within.drop_last(), fs, now, visited);
        let (keep, r) = run_filters(fs, fresh_view(stations.last(), now, visited));
        if within.last() && keep {
            rest.push(r)
        } else {
            rest
        }
    }
}

/// Every station's update times can be compared with the present.
pub open spec fn all_update_times_valid<C, D>(stations: Seq<Station<C, D>>) -> bool {
    forall|i: int| 0 <= i < stations.len() ==> (#[trigger] stations[i]).update_time.all_valid()
}

/// Searches the stations for those worth a visit. The distance limits are the
/// caller's: it says for each station whether it is within them.
pub struct Searcher<C, D> {
    stations: Stations<C, D>,
    filter: Filters,
}

impl<C, D> Searcher<C, D> {
    pub closed spec fn spec_stations(self) -> Stations<C, D> {
        self.stations
    }

    pub closed spec fn spec_filter(self) -> Seq<crate::filter::Filter> {
        self.filter@
    }

    pub fn new(stations: Stations<C, D>, filter: Filters) -> (res: Searcher<C, D>)
        ensures
            res.spec_stations() == stations,
            res.spec_filter() == filter@,
    {
        Searcher { stations, filter }
    }

    pub fn stations(&self) -> (res: &Stations<C, D>)
        ensures
            *res == self.spec_stations(),
    {
        &self.stations
    }

    /// The records of the stations within the distance limits that the filters keep,
    /// in the order of the stations, as the filters left them.
    pub fn search<'a>(&'a self, within: &Vec<bool>, now: Timestamp, visited: &Visited) -> (res: Vec<
        Record<'a, C, D>,
    >)
        requires
            within@.len() == self.spec_stations().list().len(),
            now.is_valid(),
            all_update_times_valid(self.spec_stations().list()),
        ensures
            res@.map_values(|r: Record<'a, C, D>| r@) == search_views(
                self.spec_stations().list(),
                within@,
                self.spec_filter(),
                now,
                visited@,
            ),
            forall|k: int| 0 <= k < res@.len() ==> plain_ages_ok(*(#[trigger] res@[k]).station, now),
    {
        let stations = self.stations.stations();
        let n = stations.len();
        let ghost list = stations@;
        let ghost fs = self.filter@;
        let mut records: Vec<Record<'a, C, D>> = Vec::new();
        let mut i: usize = 0;
        while i < n
            invariant
                n == list.len(),
                list == stations@,
                list == self.spec_stations().list(),
                fs == self.spec_filter(),
                fs == self.filter@,
                within@.len() == n,
                0 <= i <= n,
                now.is_valid(),
                all_update_times_valid(list),
                records@.map_values(|r: Record<'a, C, D>| r@) == search_views(
                    list.take(i as int),
                    within@.take(i as int),
                    fs,
                    now,
                    visited@,
                ),
                forall|k: int| 0 <= k < records@.len() ==> plain_ages_ok(*(#[trigger] records@[k]).station, now),
            decreases n - i,
        {
            let station = &stations[i];
            proof {
                assert(list.take(i + 1).drop_last() == list.take(i as int));
                assert(within@.take(i + 1).drop_last() == within@.take(i as int));
                assert(list.take(i + 1).last() == list[i as int]);
                assert(within@.take(i + 1).last() == within@[i as int]);
                assert(list[i as int].update_time.all_valid());
            }
            let mut record = make_record(station, now, visited);
            let ghost before = records@;
            if within[i] && self.filter.filter(&mut record) {
                records.push(record);
                proof {
                    assert(records@.map_values(|r: Record<'a, C, D>| r@) =~= before.map_values(
                        |r: Record<'a, C, D>| r@,
                    ).push(record@));
                }
            }
            i += 1;
        }
        proof {
            assert(list.take(n as int) == list);
            assert(within@.take(n as int) == within@);
        }
        records
    }
}

/// Each record a search keeps is about one of the stations searched, and is
/// marked docked exactly when its station has a market the commander docked at.
pub proof fn lemma_search_marks_docked_stations<C, D>(
    stations: Seq<Station<C, D>>,
    within: Seq<bool>,
    fs: Seq<crate::filter::Filter>,
    now: Timestamp,
    visited: Set<u64>,
)
    ensures
        forall|k: int|
            0 <= k < search_views(stations, within, fs, now, visited).len() ==> stations.contains(
                (#[trigger] search_views(stations, within, fs, now, visited)[k]).station,
            ) && (search_views(stations, within, fs, now, visited)[k].visited == (search_views(
                stations,
                within,
                fs,
                now,
                visited,
            )[k].station.market_id matches Some(id) && visited.contains(id))),
    decreases stations.len(),
{
    if stations.len() > 0 {
        let prev = stations.drop_last();
        lemma_search_marks_docked_stations(prev, within.drop_last(), fs, now, visited);
        let fresh = fresh_view(stations.last(), now, visited);
        lemma_filters_only_add_marks(fs, fresh);
        let views = search_views(stations, within, fs, now, visited);
        let rest = search_views(prev, within.drop_last(), fs, now, visited);
        assert forall|k: int| 0 <= k < views.len() implies stations.contains((#[trigger] views[k]).station) && (
        views[k].visited == (views[k].station.market_id matches Some(id) && visited.contains(id))) by {
            if k < rest.len() {
                assert(views[k] == rest[k]);
                let j = choose|j: int| 0 <= j < prev.len() && prev[j] == rest[k].station;
                assert(stations[j] == prev[j]);
            } else {
                assert(views[k] == run_filters(fs, fresh).1);
                assert(stations[stations.len() - 1] == stations.last());
            }
        }
    }
}

/// Whether `age` is the age, at `now`, of a part updated at `then`: absent
/// exactly when the part has no update time, and, away from leap seconds, the
/// nanoseconds from the update to `now` in whole days, rounded toward zero.
pub open spec fn age_since_update(now: Timestamp, then: Option<Timestamp>, age: Option<i64>) -> bool {
    match then {
        None => age is None,
        Some(t) => age matches Some(a) && (now.is_plain() && t.is_plain() ==> a == div_toward_zero(
            now.total_nanos() - t.total_nanos(),
            NANOS_PER_DAY as int,
        )),
    }
}

proof fn lemma_plain_age(now: Timestamp, then: Timestamp)
    requires
        now.is_valid(),
        then.is_valid(),
        now.is_plain(),
        then.is_plain(),
    ensures
        age_in_days(now, then) == div_toward_zero(now.total_nanos() - then.total_nanos(), NANOS_PER_DAY as int),
{
    let x = now.total_nanos() - then.total_nanos();
    assert(span_nanos(now, then) == x);
    assert(-20_000_000_000_000_000_000_000 <= x <= 20_000_000_000_000_000_000_000);
    if x >= 0 {
        assert(x / 86_400_000_000_000 <= 1_000_000_000_000) by (nonlinear_arith)
            requires
                0 <= x <= 20_000_000_000_000_000_000_000,
        ;
    } else {
        let y = -x;
        assert(y / 86_400_000_000_000 <= 1_000_000_000_000) by (nonlinear_arith)
            requires
                0 <= y <= 20_000_000_000_000_000_000_000,
        ;
    }
}

/// Each age in a station's record is the age of that same part's update time:
/// the information age of the information time, the market age of the market
/// time, and so on, counted from the update to `now`.
pub proof fn lemma_record_ages_count_days_since_update<C, D>(
    station: Station<C, D>,
    now: Timestamp,
    visited: Set<u64>,
)
    requires
        now.is_valid(),
        station.update_time.all_valid(),
    ensures
        ({
            let r = fresh_view(station, now, visited);
            let u = station.update_time;
            &&& age_since_update(now, Some(u.information), r.information.age)
            &&& age_since_update(now, u.market, r.market.age)
            &&& age_since_update(now, u.shipyard, r.shipyard.age)
            &&& age_since_update(now, u.outfitting, r.outfitting.age)
        }),
{
    let u = station.update_time;
    if now.is_plain() && u.information.is_plain() {
        lemma_plain_age(now, u.information);
    }
    if let Some(t) = u.market {
        if now.is_plain() && t.is_plain() {
            lemma_plain_age(now, t);
        }
    }
    if let Some(t) = u.shipyard {
        if now.is_plain() && t.is_plain() {
            lemma_plain_age(now, t);
        }
    }
    if let Some(t) = u.outfitting {
        if now.is_plain() && t.is_plain() {
            lemma_plain_age(now, t);
        }
    }
}

} // verus!
