use vstd::prelude::*;

use crate::patterns::PatternSet;
use crate::searcher::{DaysView, Record, RecordView};
use crate::stations::{Economy, Station};

verus! {

broadcast use vstd::seq_lib::group_seq_properties;

/// A set of economies, each held once in a list: vstd states what a `HashSet`
/// does only for key types whose hashing it models, and a derived `Hash` is not
/// one of them.
#[derive(Debug)]
pub struct EconomySet {
    items: Vec<Economy>,
}

impl View for EconomySet {
    type V = Set<Economy>;

    closed spec fn view(&self) -> Set<Economy> {
        self.items@.to_set()
    }
}

impl EconomySet {
    #[verifier::type_invariant]
    closed spec fn inv(self) -> bool {
        self.items@.no_duplicates()
    }

    /// The set of the economies in `list`, whatever their order and repetitions.
    pub fn from_list(list: &Vec<Economy>) -> (res: EconomySet)
        ensures
            res@ == list@.to_set(),
    {
        let mut items: Vec<Economy> = Vec::new();
        let mut i: usize = 0;
        while i < list.len()
            invariant
                0 <= i <= list@.len(),
                items@.no_duplicates(),
                items@.to_set() == list@.take(i as int).to_set(),
            decreases list@.len() - i,
        {
            let e = list[i];
            let ghost before = items@;
            if !contains_economy(&items, e) {
                items.push(e);
                proof {
                    assert(items@ == before.push(e));
                    assert forall|a: int, b: int|
                        0 <= a < items@.len() && 0 <= b < items@.len() && a != b implies items@[a]
                        != items@[b] by {
                        if a == before.len() as int {
                            assert(before.contains(items@[b]));
                        } else if b == before.len() as int {
                            assert(before.contains(items@[a]));
                        }
                    }
                }
            }
            proof {
                let prefix = list@.take(i as int);
                assert(list@.take(i + 1) == prefix.push(e));
                assert(before.to_set() == prefix.to_set());
                assert(before.to_set().contains(e) == before.contains(e));
                assert forall|x: Economy| items@.to_set().contains(x) == list@.take(i + 1).to_set().contains(x) by {
                    assert(prefix.push(e).contains(x) == (prefix.contains(x) || x == e));
                    assert(prefix.to_set().contains(x) == prefix.contains(x));
                    if items@ != before {
                        assert(items@ == before.push(e));
                        assert(before.push(e).contains(x) == (before.contains(x) || x == e));
                    }
                }
                assert(items@.to_set() =~= list@.take(i + 1).to_set());
            }
            i += 1;
        }
        assert(list@.take(list@.len() as int) == list@);
        EconomySet { items }
    }

    pub fn contains(&self, e: Economy) -> (res: bool)
        ensures
            res == self@.contains(e),
    {
        contains_economy(&self.items, e)
    }
}

fn contains_economy(items: &Vec<Economy>, e: Economy) -> (res: bool)
    ensures
        res == items@.contains(e),
{
    let mut i: usize = 0;
    while i < items.len()
        invariant
            0 <= i <= items@.len(),
            forall|j: int| 0 <= j < i ==> items@[j] != e,
        decreases items@.len() - i,
    {
        if items[i] == e {
            return true;
        }
        i += 1;
    }
    false
}

/// A filter on how old one part of a station's data is: the part counts as
/// outdated when its age is at least the given number of days.
#[derive(Debug, Clone, Copy)]
pub enum Days {
    Information(i64),
    Market(i64),
    Shipyard(i64),
    Outfitting(i64),
}

/// The age, marked as outdated when it is at least `threshold` days.
pub open spec fn mark_at_least(d: DaysView, threshold: i64) -> DaysView {
    match d.age {
        Some(a) => if a >= threshold {
            DaysView { age: d.age, mark: Some(a) }
        } else {
            d
        },
        None => d,
    }
}

impl Days {
    /// What the filter makes of a record: it marks one age and keeps the record.
    pub open spec fn apply<C, D>(self, r: RecordView<C, D>) -> RecordView<C, D> {
        match self {
            Days::Information(t) => RecordView { information: mark_at_least(r.information, t), ..r },
            Days::Market(t) => RecordView { market: mark_at_least(r.market, t), ..r },
            Days::Shipyard(t) => RecordView { shipyard: mark_at_least(r.shipyard, t), ..r },
            Days::Outfitting(t) => RecordView { outfitting: mark_at_least(r.outfitting, t), ..r },
        }
    }

    /// Marks the age this filter is about, and keeps every record.
    pub fn filter<'a, C, D>(&self, record: &mut Record<'a, C, D>) -> (res: bool)
        ensures
            res,
            final(record)@ == self.apply(old(record)@),
            final(record).station == old(record).station,
    {
        match self {
            Days::Information(days) => {
                let t = *days;
                record.information_days.check(|d: i64| -> (r: bool) ensures r == (d >= t) { d >= t });
            },
            Days::Market(days) => {
                let t = *days;
                record.market_days.check(|d: i64| -> (r: bool) ensures r == (d >= t) { d >= t });
            },
            Days::Shipyard(days) => {
                let t = *days;
                record.shipyard_days.check(|d: i64| -> (r: bool) ensures r == (d >= t) { d >= t });
            },
            Days::Outfitting(days) => {
                let t = *days;
                record.outfitting_days.check(|d: i64| -> (r: bool) ensures r == (d >= t) { d >= t });
            },
        }
        true
    }
}

/// Whether a station's economy is one of `set`, or, when `include_secondary` holds,
/// its second economy is.
pub open spec fn economy_accepts<C, D>(set: Set<Economy>, include_secondary: bool, station: Station<C, D>) -> bool {
    ||| station.economy matches Some(e) && set.contains(e)
    ||| include_secondary && (station.second_economy matches Some(e) && set.contains(e))
}

/// One condition that a station must meet to be listed. The conditions on
/// distances are the caller's.
pub enum Filter {
    Days(Days),
    Economy(EconomySet, bool),
    IgnorePlanetary,
    LPadOnly,
    Outdated,
    StationName(PatternSet),
    SystemName(PatternSet),
}

impl Filter {
    /// Whether the filter keeps the record, and the record after it.
    pub open spec fn spec_apply<C, D>(self, r: RecordView<C, D>) -> (bool, RecordView<C, D>) {
        match self {
            Filter::Days(d) => (true, d.apply(r)),
            Filter::Economy(set, include_secondary) => (
                economy_accepts(set@, include_secondary, r.station),
                r,
            ),
            Filter::IgnorePlanetary => (!r.station.st_type.spec_is_planetary(), r),
            Filter::LPadOnly => (r.station.st_type.spec_has_l_pad(), r),
            Filter::Outdated => (r.any_outdated(), r),
            Filter::StationName(names) => (!names.spec_matches(r.station.name@), r),
            Filter::SystemName(names) => (!names.spec_matches(r.station.system_name@), r),
        }
    }

    pub fn filter<'a, C, D>(&self, record: &mut Record<'a, C, D>) -> (res: bool)
        ensures
            (res, final(record)@) == self.spec_apply(old(record)@),
            final(record).station == old(record).station,
    {
        match self {
            Filter::Days(days) => days.filter(record),
            Filter::Economy(list, include_secondary) => {
                if let Some(economy) = record.station.economy {
                    if list.contains(economy) {
                        return true;
                    }
                }
                if let Some(second) = record.station.second_economy {
                    if *include_secondary && list.contains(second) {
                        return true;
                    }
                }
                false
            },
            Filter::IgnorePlanetary => !record.station.st_type.is_planetary(),
            Filter::LPadOnly => record.station.st_type.has_l_pad(),
            Filter::Outdated => check_outdated(record),
            Filter::StationName(names) => !names.is_match(record.station.name.as_str()),
            Filter::SystemName(names) => !names.is_match(record.station.system_name.as_str()),
        }
    }
}

fn check_outdated<'a, C, D>(record: &Record<'a, C, D>) -> (res: bool)
    ensures
        res == record@.any_outdated(),
{
    record.information_days.is_outdated() || record.market_days.is_outdated()
        || record.shipyard_days.is_outdated() || record.outfitting_days.is_outdated()
}

/// Runs filters in order, each on the record the previous one left, and stops at
/// the first that does not keep it.
pub open spec fn run_filters<C, D>(fs: Seq<Filter>, r: RecordView<C, D>) -> (bool, RecordView<C, D>)
    decreases fs.len(),
{
    if fs.len() == 0 {
        (true, r)
    } else {
        let (keep, next) = fs[0].spec_apply(r);
        if !keep {
            (false, next)
        } else {
            run_filters(fs.drop_first(), next)
        }
    }
}

/// The conditions a station must meet, in the order they are checked.
pub struct Filters(Vec<Filter>);

impl View for Filters {
    type V = Seq<Filter>;

    closed spec fn view(&self) -> Seq<Filter> {
        self.0@
    }
}

impl Filters {
    pub fn new() -> (res: Filters)
        ensures
            res@ == Seq::<Filter>::empty(),
    {
        Filters(Vec::new())
    }

    pub fn add(&mut self, filter: Filter)
        ensures
            final(self)@ == old(self)@.push(filter),
    {
        self.0.push(filter);
    }

    /// Runs the filters in order; a record is kept when all keep it.
    pub fn filter<'a, C, D>(&self, record: &mut Record<'a, C, D>) -> (res: bool)
        ensures
            (res, final(record)@) == run_filters(self@, old(record)@),
            final(record).station == old(record).station,
    {
        let n = self.0.len();
        let mut i: usize = 0;
        while i < n
            invariant
                n == self@.len(),
                0 <= i <= n,
                run_filters(self@, old(record)@) == run_filters(self@.skip(i as int), record@),
                record.station == old(record).station,
            decreases n - i,
        {
            let ghost rest = self@.skip(i as int);
            assert(rest[0] == self@[i as int]);
            assert(rest.drop_first() == self@.skip(i + 1));
            if !self.0[i].filter(record) {
                return false;
            }
            i += 1;
        }
        true
    }
}

/// Whether `after` keeps every mark of `before`.
pub open spec fn keeps_marks(before: DaysView, after: DaysView) -> bool {
    &&& after.age == before.age
    &&& before.mark is Some ==> after.mark is Some
}

/// Filters never change which station a record is about, whether it was visited,
/// or the ages; they only add marks.
pub open spec fn only_adds_marks<C, D>(before: RecordView<C, D>, after: RecordView<C, D>) -> bool {
    &&& after.station == before.station
    &&& after.visited == before.visited
    &&& keeps_marks(before.information, after.information)
    &&& keeps_marks(before.market, after.market)
    &&& keeps_marks(before.shipyard, after.shipyard)
    &&& keeps_marks(before.outfitting, after.outfitting)
}

/// One filter only adds marks.
pub proof fn lemma_filter_only_adds_marks<C, D>(f: Filter, r: RecordView<C, D>)
    ensures
        only_adds_marks(r, f.spec_apply(r).1),
{
}

/// Running filters only adds marks to a record.
pub proof fn lemma_filters_only_add_marks<C, D>(fs: Seq<Filter>, r: RecordView<C, D>)
    ensures
        only_adds_marks(r, run_filters(fs, r).1),
    decreases fs.len(),
{
    if fs.len() > 0 {
        let next = fs[0].spec_apply(r).1;
        lemma_filters_only_add_marks(fs.drop_first(), next);
    }
}

/// No filters keep every record as it is.
pub proof fn lemma_no_filters_keep_all<C, D>(r: RecordView<C, D>)
    ensures
        run_filters(Seq::<Filter>::empty(), r) == (true, r),
{
}

/// Running `a` and then `b` is running `a + b`: the second list runs on what the first
/// kept, and a record the first dropped stays dropped.
pub proof fn lemma_run_filters_append<C, D>(a: Seq<Filter>, b: Seq<Filter>, r: RecordView<C, D>)
    ensures
        run_filters(a + b, r) == (if run_filters(a, r).0 {
            run_filters(b, run_filters(a, r).1)
        } else {
            run_filters(a, r)
        }),
    decreases a.len(),
{
    if a.len() == 0 {
        assert(a + b == b);
    } else {
        assert((a + b)[0] == a[0]);
        assert((a + b).drop_first() == a.drop_first() + b);
        let next = a[0].spec_apply(r).1;
        lemma_run_filters_append(a.drop_first(), b, next);
    }
}

/// A record that filters including `Outdated` keep has an outdated part.
pub proof fn lemma_kept_records_are_outdated<C, D>(fs: Seq<Filter>, r: RecordView<C, D>)
    requires
        fs.contains(Filter::Outdated),
        run_filters(fs, r).0,
    ensures
        run_filters(fs, r).1.any_outdated(),
    decreases fs.len(),
{
    let next = fs[0].spec_apply(r).1;
    if fs[0] == Filter::Outdated {
        assert(next.any_outdated());
        lemma_filters_only_add_marks(fs.drop_first(), next);
    } else {
        assert(fs.drop_first().contains(Filter::Outdated)) by {
            let i = choose|i: int| 0 <= i < fs.len() && fs[i] == Filter::Outdated;
            assert(fs.drop_first()[i - 1] == Filter::Outdated);
        }
        lemma_kept_records_are_outdated(fs.drop_first(), next);
    }
}

/// The outdated filter keeps a record exactly when one of its four parts
/// (information, market, shipyard, outfitting) is marked outdated, and leaves the
/// record as it is.
pub proof fn lemma_outdated_keeps_exactly_marked_records<C, D>(r: RecordView<C, D>)
    ensures
        Filter::Outdated.spec_apply(r).0 <==> (r.information.mark is Some || r.market.mark is Some
            || r.shipyard.mark is Some || r.outfitting.mark is Some),
        Filter::Outdated.spec_apply(r).1 == r,
{
}

/// Whether `after` is `before` with its mark set to the age when the age is at
/// least `t` days, and left as it was otherwise.
pub open spec fn marked_when_at_least(before: DaysView, after: DaysView, t: i64) -> bool {
    &&& after.age == before.age
    &&& match before.age {
        Some(a) => if a >= t {
            after.mark == Some(a)
        } else {
            after.mark == before.mark
        },
        None => after.mark == before.mark,
    }
}

/// A day filter keeps every record, marks the age of its own part when that age
/// is at least its threshold, and changes nothing else of the record.
pub proof fn lemma_days_filter_marks_its_own_part<C, D>(d: Days, r: RecordView<C, D>)
    ensures
        Filter::Days(d).spec_apply(r).0,
        ({
            let a = Filter::Days(d).spec_apply(r).1;
            &&& a.station == r.station
            &&& a.visited == r.visited
            &&& match d {
                Days::Information(t) => marked_when_at_least(r.information, a.information, t)
                    && a.market == r.market && a.shipyard == r.shipyard && a.outfitting == r.outfitting,
                Days::Market(t) => marked_when_at_least(r.market, a.market, t)
                    && a.information == r.information && a.shipyard == r.shipyard && a.outfitting == r.outfitting,
                Days::Shipyard(t) => marked_when_at_least(r.shipyard, a.shipyard, t)
                    && a.information == r.information && a.market == r.market && a.outfitting == r.outfitting,
                Days::Outfitting(t) => marked_when_at_least(r.outfitting, a.outfitting, t)
                    && a.information == r.information && a.market == r.market && a.shipyard == r.shipyard,
            }
        }),
{
}

/// A name filter with no patterns keeps every record.
pub proof fn lemma_empty_name_filter_keeps_all<C, D>(names: PatternSet, r: RecordView<C, D>)
    requires
        names.patterns().len() == 0,
    ensures
        Filter::StationName(names).spec_apply(r) == (true, r),
{
}

impl<C, D> crate::searcher::Filter<C, D> for Days {
    open spec fn keeps(&self, r: RecordView<C, D>) -> (bool, RecordView<C, D>) {
        (true, self.apply(r))
    }

    fn filter<'a>(&self, record: &mut Record<'a, C, D>) -> (res: bool) {
        Days::filter(self, record)
    }
}

impl<C, D> crate::searcher::Filter<C, D> for Filter {
    open spec fn keeps(&self, r: RecordView<C, D>) -> (bool, RecordView<C, D>) {
        self.spec_apply(r)
    }

    fn filter<'a>(&self, record: &mut Record<'a, C, D>) -> (res: bool) {
        Filter::filter(self, record)
    }
}

impl<C, D> crate::searcher::Filter<C, D> for Filters {
    open spec fn keeps(&self, r: RecordView<C, D>) -> (bool, RecordView<C, D>) {
        run_filters(self@, r)
    }

    fn filter<'a>(&self, record: &mut Record<'a, C, D>) -> (res: bool) {
        Filters::filter(self, record)
    }
}

} // verus!
