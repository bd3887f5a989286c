use vstd::prelude::*;

use std::collections::BTreeMap;
use vstd::std_specs::iter::IteratorSpec;

use crate::patterns::PatternSet;
use crate::searcher::{age_in_days, plain_age_ok};
use crate::stations::Station;
use crate::time::{chrono_num_days_since, Timestamp};

verus! {

/// How many stations have data of one age, and how many have data of that age or younger.
#[derive(Debug, Clone, Copy, PartialEq, Eq, Structural)]
pub struct DayCount {
    pub day: i64,
    pub count: usize,
    pub acc: usize,
}

/// How often `d` occurs in `s`.
pub open spec fn occurrences(s: Seq<i64>, d: i64) -> nat
    decreases s.len(),
{
    if s.len() == 0 {
        0
    } else {
        occurrences(s.drop_last(), d) + (if s.last() == d {
            1nat
        } else {
            0nat
        })
    }
}

/// The sum, over the days `ks`, of how often each occurs in `s`.
pub open spec fn occurrence_sum(s: Seq<i64>, ks: Seq<i64>) -> nat
    decreases ks.len(),
{
    if ks.len() == 0 {
        0
    } else {
        occurrence_sum(s, ks.drop_last()) + occurrences(s, ks.last())
    }
}

/// Whether the `BTreeMap` of the histogram can rely on what vstd states of maps
/// with ordered keys.
pub open spec fn day_keys_ordered() -> bool {
    &&& vstd::std_specs::btree::key_obeys_cmp_spec::<i64>()
    &&& vstd::laws_cmp::obeys_cmp::<i64>()
}

/// Days are ordered keys, and a sequence of them that vstd calls increasing
/// is strictly ascending.
proof fn lemma_day_keys_ordered()
    ensures
        day_keys_ordered(),
        forall|s: Seq<i64>|
            #[trigger] vstd::std_specs::btree::increasing_seq(s) ==> forall|i: int, j: int|
                0 <= i < j < s.len() ==> s[i] < s[j],
{
    broadcast use {vstd::laws_cmp::group_laws_cmp, vstd::std_specs::btree::group_btree_axioms};

    assert forall|s: Seq<i64>| #[trigger] vstd::std_specs::btree::increasing_seq(s) implies forall|i: int, j: int|
        0 <= i < j < s.len() ==> s[i] < s[j] by {
        assert forall|i: int, j: int| 0 <= i < j < s.len() implies s[i] < s[j] by {
            assert(vstd::std_specs::cmp::OrdSpec::cmp_spec(&s[i], &s[j]) is Less);
        }
    }
}

proof fn lemma_occurrences_bound(s: Seq<i64>, d: i64)
    ensures
        occurrences(s, d) <= s.len(),
    decreases s.len(),
{
    if s.len() > 0 {
        lemma_occurrences_bound(s.drop_last(), d);
    }
}

proof fn lemma_occurrences_absent(s: Seq<i64>, d: i64)
    requires
        !s.contains(d),
    ensures
        occurrences(s, d) == 0,
    decreases s.len(),
{
    if s.len() > 0 {
        assert(!s.drop_last().contains(d)) by {
            if s.drop_last().contains(d) {
                let j = choose|j: int| 0 <= j < s.drop_last().len() && s.drop_last()[j] == d;
                assert(s[j] == d);
            }
        }
        assert(s.last() == s[s.len() - 1]);
        lemma_occurrences_absent(s.drop_last(), d);
    }
}

proof fn lemma_occurrences_once(s: Seq<i64>, d: i64)
    requires
        s.no_duplicates(),
        s.contains(d),
    ensures
        occurrences(s, d) == 1,
    decreases s.len(),
{
    let t = s.drop_last();
    if s.last() == d {
        assert(!t.contains(d)) by {
            if t.contains(d) {
                let j = choose|j: int| 0 <= j < t.len() && t[j] == d;
                assert(s[j] == s[s.len() - 1]);
            }
        }
        lemma_occurrences_absent(t, d);
    } else {
        let j = choose|j: int| 0 <= j < s.len() && s[j] == d;
        assert(j != s.len() - 1);
        assert(t[j] == d);
        assert(t.no_duplicates());
        lemma_occurrences_once(t, d);
    }
}

proof fn lemma_occurrence_sum_empty(ks: Seq<i64>)
    ensures
        occurrence_sum(Seq::empty(), ks) == 0,
    decreases ks.len(),
{
    if ks.len() > 0 {
        lemma_occurrence_sum_empty(ks.drop_last());
    }
}

proof fn lemma_occurrence_sum_last(s: Seq<i64>, ks: Seq<i64>)
    requires
        s.len() > 0,
    ensures
        occurrence_sum(s, ks) == occurrence_sum(s.drop_last(), ks) + occurrences(ks, s.last()),
    decreases ks.len(),
{
    if ks.len() > 0 {
        lemma_occurrence_sum_last(s, ks.drop_last());
    }
}

/// Summed over distinct days that take in every element of `s`, the occurrences
/// add up to the length of `s`.
proof fn lemma_occurrence_sum_covers(s: Seq<i64>, ks: Seq<i64>)
    requires
        ks.no_duplicates(),
        forall|j: int| 0 <= j < s.len() ==> ks.contains(#[trigger] s[j]),
    ensures
        occurrence_sum(s, ks) == s.len(),
    decreases s.len(),
{
    if s.len() == 0 {
        lemma_occurrence_sum_empty(ks);
        assert(s == Seq::<i64>::empty());
    } else {
        let t = s.drop_last();
        assert forall|j: int| 0 <= j < t.len() implies ks.contains(#[trigger] t[j]) by {
            assert(t[j] == s[j]);
        }
        lemma_occurrence_sum_covers(t, ks);
        lemma_occurrence_sum_last(s, ks);
        assert(ks.contains(s[s.len() - 1]));
        lemma_occurrences_once(ks, s.last());
    }
}

proof fn lemma_occurrence_sum_prefix(s: Seq<i64>, ks: Seq<i64>, k: int)
    requires
        0 <= k <= ks.len(),
    ensures
        occurrence_sum(s, ks.take(k)) <= occurrence_sum(s, ks),
    decreases ks.len() - k,
{
    if k < ks.len() {
        lemma_occurrence_sum_prefix(s, ks, k + 1);
        assert(ks.take(k + 1).drop_last() == ks.take(k));
    } else {
        assert(ks.take(k) == ks);
    }
}

/// How many times of `days` fall on each day, ascending, with running totals: the
/// histogram of data ages.
pub fn count_days(days: &Vec<i64>) -> (res: Vec<DayCount>)
    ensures
        forall|i: int, j: int| 0 <= i < j < res@.len() ==> res@[i].day < res@[j].day,
        forall|i: int| 0 <= i < res@.len() ==> #[trigger] res@[i].count == occurrences(days@, res@[i].day),
        forall|i: int| 0 <= i < res@.len() ==> #[trigger] res@[i].count > 0,
        forall|d: i64| occurrences(days@, d) > 0 ==> exists|i: int| 0 <= i < res@.len() && #[trigger] res@[i].day == d,
        res@.len() > 0 ==> res@[0].acc == res@[0].count,
        forall|i: int| 0 < i < res@.len() ==> #[trigger] res@[i].acc == res@[i - 1].acc + res@[i].count,
        res@.len() > 0 ==> res@.last().acc == days@.len(),
        days@.len() == 0 ==> res@.len() == 0,
{
    broadcast use vstd::std_specs::btree::group_btree_axioms;

    proof {
        lemma_day_keys_ordered();
    }
    let n = days.len();
    let mut map: BTreeMap<i64, usize> = BTreeMap::new();
    let mut i: usize = 0;
    while i < n
        invariant
            n == days@.len(),
            0 <= i <= n,
            day_keys_ordered(),
            forall|d: i64| #[trigger] map@.contains_key(d) <==> occurrences(days@.take(i as int), d) > 0,
            forall|d: i64| #[trigger] map@.contains_key(d) ==> map@[d] == occurrences(days@.take(i as int), d),
        decreases n - i,
    {
        let x = days[i];
        let ghost prefix = days@.take(i as int);
        let ghost next = days@.take(i + 1);
        proof {
            assert(next.drop_last() == prefix);
            assert(next.last() == x);
            assert forall|d: i64| occurrences(next, d) == occurrences(prefix, d) + (if d == x { 1nat } else { 0nat }) by {}
            lemma_occurrences_bound(prefix, x);
        }
        let seen: Option<usize> = match map.get(&x) {
            Some(c) => Some(*c),
            None => None,
        };
        match seen {
            Some(c) => {
                map.insert(x, c + 1);
            },
            None => {
                map.insert(x, 1);
            },
        }
        i += 1;
    }
    let entry_iter = map.iter();
    let ghost entries = entry_iter.remaining();
    let ghost keys = entries.map_values(|kv: (&i64, &usize)| *kv.0);
    proof {
        assert(days@.take(n as int) == days@);
        assert(vstd::std_specs::btree::increasing_seq(keys));
        assert(forall|a: int, b: int| 0 <= a < b < keys.len() ==> keys[a] < keys[b]);
        assert(keys.no_duplicates());
        assert forall|a: int| 0 <= a < entries.len() implies #[trigger] *entries[a].1 == occurrences(days@, *entries[a].0) by {
            assert(map@.contains_key(*entries[a].0));
        }
        assert forall|j: int| 0 <= j < days@.len() implies keys.contains(#[trigger] days@[j]) by {
            let d = days@[j];
            if occurrences(days@, d) == 0 {
                lemma_occurrences_absent_contra(days@, j);
            }
            assert(map@.contains_key(d));
            assert(entries.contains((&d, &map@[d])));
            let a = choose|a: int| 0 <= a < entries.len() && entries[a] == (&d, &map@[d]);
            assert(keys[a] == d);
        }
        lemma_occurrence_sum_covers(days@, keys);
    }
    let mut res: Vec<DayCount> = Vec::new();
    let mut acc: usize = 0;
    for (d, c) in it: entry_iter
        invariant
            n == days@.len(),
            day_keys_ordered(),
            it.seq() == entries,
            keys == entries.map_values(|kv: (&i64, &usize)| *kv.0),
            occurrence_sum(days@, keys) == n,
            forall|a: int, b: int| 0 <= a < b < keys.len() ==> keys[a] < keys[b],
            forall|a: int| 0 <= a < entries.len() ==> #[trigger] *entries[a].1 == occurrences(days@, *entries[a].0),
            acc == occurrence_sum(days@, keys.take(it.index() as int)),
            res@.len() == it.index(),
            forall|a: int| 0 <= a < res@.len() ==> #[trigger] res@[a].day == keys[a] && res@[a].count == *entries[a].1,
            res@.len() > 0 ==> res@.last().acc == acc,
            res@.len() > 0 ==> res@[0].acc == res@[0].count,
            forall|a: int| 0 < a < res@.len() ==> #[trigger] res@[a].acc == res@[a - 1].acc + res@[a].count,
    {
        let ghost k = it.index();
        proof {
            assert(keys.take(k + 1).drop_last() == keys.take(k as int));
            assert(keys.take(k + 1).last() == keys[k as int]);
            lemma_occurrence_sum_prefix(days@, keys, k + 1);
        }
        acc = acc + *c;
        res.push(DayCount { day: *d, count: *c, acc });
    }
    proof {
        assert(keys.take(keys.len() as int) == keys);
        assert forall|a: int| 0 <= a < res@.len() implies #[trigger] res@[a].count > 0 by {
            assert(res@[a].day == keys[a]);
            assert(map@.contains_key(*entries[a].0));
        }
        assert forall|d: i64| occurrences(days@, d) > 0 implies exists|a: int| 0 <= a < res@.len() && #[trigger] res@[a].day == d by {
            assert(map@.contains_key(d));
            assert(entries.contains((&d, &map@[d])));
            let a = choose|a: int| 0 <= a < entries.len() && entries[a] == (&d, &map@[d]);
            assert(res@[a].day == d);
        }
    }
    res
}

proof fn lemma_occurrences_absent_contra(s: Seq<i64>, j: int)
    requires
        0 <= j < s.len(),
    ensures
        occurrences(s, s[j]) > 0,
    decreases s.len(),
{
    if j < s.len() - 1 {
        assert(s.drop_last()[j] == s[j]);
        lemma_occurrences_absent_contra(s.drop_last(), j);
    }
}

/// Whether a station is left in by the exclusion patterns: neither its name nor
/// its system's name matches.
pub open spec fn not_excluded<C, D>(names: PatternSet, systems: PatternSet, st: Station<C, D>) -> bool {
    !names.spec_matches(st.name@) && !systems.spec_matches(st.system_name@)
}

/// The stations, in order, whose name matches no pattern of `names` and whose
/// system's name matches no pattern of `systems`.
pub fn without_excluded<C, D>(
    stations: Vec<Station<C, D>>,
    names: &PatternSet,
    systems: &PatternSet,
) -> (res: Vec<Station<C, D>>)
    ensures
        res@ == stations@.filter(|st: Station<C, D>| not_excluded(*names, *systems, st)),
{
    let ghost all = stations@;
    let ghost keep = |st: Station<C, D>| not_excluded(*names, *systems, st);
    let mut res: Vec<Station<C, D>> = Vec::new();
    for st in it: stations.into_iter()
        invariant
            it.seq() == all,
            keep == (|st: Station<C, D>| not_excluded(*names, *systems, st)),
            res@ == all.take(it.index() as int).filter(keep),
    {
        proof {
            reveal(Seq::filter);
            assert(all.take(it.index() + 1).drop_last() == all.take(it.index() as int));
            assert(all.take(it.index() + 1).last() == st);
        }
        if !names.matches(st.name.as_str()) && !systems.matches(st.system_name.as_str()) {
            res.push(st);
        }
    }
    proof {
        assert(all.take(all.len() as int) == all);
    }
    res
}

/// The ages in days, at instant `now`, of the given update times.
pub fn ages(now: Timestamp, times: &Vec<Timestamp>) -> (res: Vec<i64>)
    requires
        now.is_valid(),
        forall|i: int| 0 <= i < times@.len() ==> (#[trigger] times@[i]).is_valid(),
    ensures
        res@.len() == times@.len(),
        forall|i: int| 0 <= i < times@.len() ==> #[trigger] res@[i] == age_in_days(now, times@[i]),
        forall|i: int| 0 <= i < times@.len() ==> plain_age_ok(now, times@[i], #[trigger] res@[i]),
{
    let mut res: Vec<i64> = Vec::new();
    let mut i: usize = 0;
    while i < times.len()
        invariant
            0 <= i <= times@.len(),
            now.is_valid(),
            forall|j: int| 0 <= j < times@.len() ==> (#[trigger] times@[j]).is_valid(),
            res@.len() == i,
            forall|j: int| 0 <= j < i ==> #[trigger] res@[j] == age_in_days(now, times@[j]),
            forall|j: int| 0 <= j < i ==> plain_age_ok(now, times@[j], #[trigger] res@[j]),
        decreases times@.len() - i,
    {
        res.push(chrono_num_days_since(now, times[i]));
        i += 1;
    }
    res
}

/// The histogram of the ages, at instant `now`, of the given update times.
pub fn count(now: Timestamp, times: &Vec<Timestamp>) -> (res: Vec<DayCount>)
    requires
        now.is_valid(),
        forall|i: int| 0 <= i < times@.len() ==> (#[trigger] times@[i]).is_valid(),
    ensures
        ({
            let days = times@.map_values(|t: Timestamp| age_in_days(now, t));
            &&& forall|i: int, j: int| 0 <= i < j < res@.len() ==> res@[i].day < res@[j].day
            &&& forall|i: int| 0 <= i < res@.len() ==> #[trigger] res@[i].count == occurrences(days, res@[i].day)
            &&& forall|i: int| 0 <= i < res@.len() ==> #[trigger] res@[i].count > 0
            &&& forall|d: i64| occurrences(days, d) > 0 ==> exists|i: int| 0 <= i < res@.len() && #[trigger] res@[i].day == d
            &&& res@.len() > 0 ==> res@[0].acc == res@[0].count
            &&& forall|i: int| 0 < i < res@.len() ==> #[trigger] res@[i].acc == res@[i - 1].acc + res@[i].count
            &&& res@.len() > 0 ==> res@.last().acc == times@.len()
        }),
        forall|i: int| 0 <= i < times@.len() ==> plain_age_ok(now, times@[i], age_in_days(now, #[trigger] times@[i])),
{
    let days = ages(now, times);
    assert(days@ == times@.map_values(|t: Timestamp| age_in_days(now, t)));
    assert forall|i: int| 0 <= i < times@.len() implies plain_age_ok(now, times@[i], age_in_days(now, #[trigger] times@[i])) by {
        assert(plain_age_ok(now, times@[i], days@[i]));
    }
    count_days(&days)
}

} // verus!
