use near_old_stations::config::{
    Config, ConfigError, EconomyFilter, FilterConfig, Mode, Origin, OutdatedDays, PadSize, Planetary,
};
use near_old_stations::download::{is_not_modified, EtagStoreage, EtagTable};
use near_old_stations::filter::{Days as DaysFilter, EconomySet, Filter, Filters};
use near_old_stations::journal::{journal_files, scan_journals, JournalError, JournalEvent, JournalScan, Visited};
use near_old_stations::mode::{self, needs_refresh, Action, Report, UpdateLoop};
use near_old_stations::printer::{outdated_marks, visited_mark, TextPrinter};
use near_old_stations::searcher::{make_record, Days, Filter as RecordFilter, Record, Searcher};
use near_old_stations::stations::{merge_coords, DecodeStep, Decoder, Economy, Station, StationType, Stations, UpdateTime};
use near_old_stations::stats::{ages, count, count_days, without_excluded, DayCount};
use near_old_stations::time::{parse_last_modified, parse_optional_update_time, parse_update_time, Timestamp};

use std::collections::HashMap;

fn ts(secs: i64) -> Timestamp {
    Timestamp { secs, nanos: 0 }
}

const DAY: i64 = 86_400;
const NOW: i64 = 1_600_000_000;

fn station(name: &str, system: &str, st_type: StationType) -> Station<u32, u32> {
    Station {
        coords: 0,
        distance_to_arrival: Some(100),
        economy: Some(Economy::Industrial),
        market_id: Some(42),
        name: name.to_string(),
        second_economy: Some(Economy::Refinery),
        st_type,
        system_id: 7,
        system_name: system.to_string(),
        update_time: UpdateTime {
            information: ts(NOW - 10 * DAY),
            market: Some(ts(NOW - 3 * DAY)),
            shipyard: None,
            outfitting: Some(ts(NOW - 30 * DAY)),
        },
    }
}

#[test]
fn parse_update_time_gives_utc_instant() {
    let t = parse_update_time("2020-01-02 03:04:05").unwrap();
    assert_eq!(t, Timestamp { secs: 1_577_934_245, nanos: 0 });
    assert!(parse_update_time("2020-01-02T03:04:05").is_err());
    assert!(parse_update_time("").is_err());
}

#[test]
fn parse_optional_update_time_keeps_absence() {
    assert_eq!(parse_optional_update_time(None).unwrap(), None);
    assert_eq!(parse_optional_update_time(Some("1970-01-02 00:00:00")).unwrap(), Some(ts(DAY)));
    assert!(parse_optional_update_time(Some("yesterday")).is_err());
}

#[test]
fn parse_last_modified_reads_rfc2822() {
    assert_eq!(parse_last_modified(None).unwrap(), None);
    let t = parse_last_modified(Some("Wed, 21 Oct 2015 07:28:00 GMT")).unwrap().unwrap();
    assert_eq!(t, ts(1_445_412_480));
    let t = parse_last_modified(Some("Wed, 21 Oct 2015 09:28:00 +0200")).unwrap().unwrap();
    assert_eq!(t, ts(1_445_412_480));
    assert!(parse_last_modified(Some("21/10/2015")).is_err());
}

#[test]
fn record_ages_are_whole_days() {
    let st = station("A", "S", StationType::Outpost);
    let visited = Visited::new();
    let r = make_record(&st, ts(NOW), &visited);
    assert_eq!(r.information_days.outdated(), None);
    assert!(!r.visited);
    // ages: information 10, market 3, shipyard none, outfitting 30
    let mut r = r;
    r.information_days.check(|d| d == 10);
    r.market_days.check(|d| d == 3);
    r.shipyard_days.check(|_| true);
    r.outfitting_days.check(|d| d == 30);
    assert_eq!(r.information_days.outdated(), Some(10));
    assert_eq!(r.market_days.outdated(), Some(3));
    assert_eq!(r.shipyard_days.outdated(), None);
    assert_eq!(r.outfitting_days.outdated(), Some(30));
}

#[test]
fn ages_round_toward_zero() {
    let mut st = station("A", "S", StationType::Outpost);
    st.update_time.information = ts(NOW - DAY + 1);
    st.update_time.market = Some(ts(NOW - DAY));
    st.update_time.outfitting = Some(ts(NOW + DAY + DAY / 2));
    let visited = Visited::new();
    let mut r = make_record(&st, Timestamp { secs: NOW, nanos: 500_000_000 }, &visited);
    r.information_days.check(|_| true);
    r.market_days.check(|_| true);
    r.outfitting_days.check(|_| true);
    assert_eq!(r.information_days.outdated(), Some(0));
    assert_eq!(r.market_days.outdated(), Some(1));
    assert_eq!(r.outfitting_days.outdated(), Some(-1));
}

#[test]
fn visited_markets_are_flagged() {
    let st = station("A", "S", StationType::Outpost);
    let mut visited = Visited::new();
    visited.insert(42);
    let r = make_record(&st, ts(NOW), &visited);
    assert!(r.visited);
    assert_eq!(visited_mark(&r), "*");
    let mut no_market = station("B", "S", StationType::Outpost);
    no_market.market_id = None;
    let r = make_record(&no_market, ts(NOW), &visited);
    assert!(!r.visited);
    assert_eq!(visited_mark(&r), " ");
}

#[test]
fn days_check_marks_and_never_clears() {
    let mut d = Days::new(5);
    assert!(!d.is_outdated());
    d.check(|x| x >= 10);
    assert!(!d.is_outdated());
    d.check(|x| x >= 5);
    assert!(d.is_outdated());
    assert_eq!(d.outdated(), Some(5));
    d.check(|_| false);
    assert_eq!(d.outdated(), Some(5));
    let mut e = Days::empty();
    e.check(|_| true);
    assert!(!e.is_outdated());
    assert_eq!(e.outdated(), None);
}

#[test]
fn record_outdated_is_the_largest_mark() {
    let st = station("A", "S", StationType::Outpost);
    let visited = Visited::new();
    let mut r = make_record(&st, ts(NOW), &visited);
    assert_eq!(r.outdated(), None);
    r.market_days.check(|_| true);
    assert_eq!(r.outdated(), Some(3));
    r.information_days.check(|_| true);
    assert_eq!(r.outdated(), Some(10));
    r.outfitting_days.check(|_| true);
    assert_eq!(r.outdated(), Some(30));
    assert_eq!(outdated_marks(&r), "IM O");
}

#[test]
fn days_filters_mark_at_threshold_and_keep() {
    let st = station("A", "S", StationType::Outpost);
    let visited = Visited::new();
    let mut r = make_record(&st, ts(NOW), &visited);
    assert!(DaysFilter::Information(11).filter(&mut r));
    assert!(!r.information_days.is_outdated());
    assert!(DaysFilter::Information(10).filter(&mut r));
    assert!(r.information_days.is_outdated());
    assert!(DaysFilter::Shipyard(0).filter(&mut r));
    assert!(!r.shipyard_days.is_outdated());
    assert!(DaysFilter::Outfitting(-5).filter(&mut r));
    assert_eq!(r.outfitting_days.outdated(), Some(30));
    assert!(DaysFilter::Market(4).filter(&mut r));
    assert!(!r.market_days.is_outdated());
    assert_eq!(outdated_marks(&r), "I  O");
}

#[test]
fn outdated_filter_needs_a_mark() {
    let st = station("A", "S", StationType::Outpost);
    let visited = Visited::new();
    let mut r = make_record(&st, ts(NOW), &visited);
    assert!(!Filter::Outdated.filter(&mut r));
    r.market_days.check(|_| true);
    assert!(Filter::Outdated.filter(&mut r));
}

#[test]
fn pad_and_planet_filters() {
    let visited = Visited::new();
    let outpost = station("A", "S", StationType::Outpost);
    let port = station("B", "S", StationType::PlanetaryPort);
    let orbis = station("C", "S", StationType::OrbisStarport);
    let mut r = make_record(&outpost, ts(NOW), &visited);
    assert!(!Filter::LPadOnly.filter(&mut r));
    assert!(Filter::IgnorePlanetary.filter(&mut r));
    let mut r = make_record(&port, ts(NOW), &visited);
    assert!(Filter::LPadOnly.filter(&mut r));
    assert!(!Filter::IgnorePlanetary.filter(&mut r));
    let mut r = make_record(&orbis, ts(NOW), &visited);
    assert!(Filter::LPadOnly.filter(&mut r));
    assert!(Filter::IgnorePlanetary.filter(&mut r));
}

#[test]
fn station_types() {
    let all = [
        StationType::OcellusStarport,
        StationType::OrbisStarport,
        StationType::CoriolisStarport,
        StationType::AsteroidBase,
        StationType::MegaShip,
        StationType::Outpost,
        StationType::PlanetaryPort,
        StationType::PlanetaryOutpost,
    ];
    let labels = [
        "Ocellus",
        "Orbis",
        "Coriolis",
        "Asteroid",
        "MegaShip",
        "Outpost",
        "PlanetaryPort",
        "PlanetaryOutpost",
    ];
    for (t, l) in all.iter().zip(labels.iter()) {
        assert_eq!(t.label(), *l);
        assert_eq!(t.has_l_pad(), *t != StationType::Outpost);
        if t.is_planetary() {
            assert!(t.has_l_pad());
        }
    }
    assert!(StationType::PlanetaryOutpost.is_planetary());
    assert!(!StationType::MegaShip.is_planetary());
}

#[test]
fn economy_filter_primary_and_secondary() {
    let visited = Visited::new();
    let st = station("A", "S", StationType::Outpost);
    let mut r = make_record(&st, ts(NOW), &visited);
    let set = EconomySet::from_list(&vec![Economy::Refinery, Economy::Refinery]);
    assert!(set.contains(Economy::Refinery));
    assert!(!set.contains(Economy::Industrial));
    assert!(!Filter::Economy(EconomySet::from_list(&vec![Economy::Refinery]), false).filter(&mut r));
    assert!(Filter::Economy(EconomySet::from_list(&vec![Economy::Refinery]), true).filter(&mut r));
    assert!(Filter::Economy(EconomySet::from_list(&vec![Economy::Tourism, Economy::Industrial]), false).filter(&mut r));
    assert!(!Filter::Economy(EconomySet::from_list(&vec![]), true).filter(&mut r));
    let mut none = station("B", "S", StationType::Outpost);
    none.economy = None;
    none.second_economy = None;
    let mut r = make_record(&none, ts(NOW), &visited);
    assert!(!Filter::Economy(EconomySet::from_list(&vec![Economy::Industrial]), true).filter(&mut r));
}

fn filter_config(names: Vec<&str>, systems: Vec<&str>) -> FilterConfig {
    FilterConfig {
        exclude_names: names.into_iter().map(String::from).collect(),
        exclude_systems: systems.into_iter().map(String::from).collect(),
        economy: None,
        pad_size: None,
        planetary: None,
    }
}

#[test]
fn name_exclusion_uses_regex_sets() {
    let fc = filter_config(vec!["^Carrier", "Hub$"], vec!["Sol"]);
    let names = fc.exclude_names().unwrap();
    assert!(names.matches("Carrier X"));
    assert!(names.matches("Jameson Hub"));
    assert!(!names.matches("A Carrier"));
    let systems = fc.exclude_systems().unwrap();
    assert!(systems.matches("Solati"));
    let empty = filter_config(vec![], vec![]).exclude_names().unwrap();
    assert!(!empty.matches("anything"));
    assert!(!empty.matches(""));

    let visited = Visited::new();
    let st = station("Carrier X", "Lave", StationType::Outpost);
    let mut r = make_record(&st, ts(NOW), &visited);
    assert!(!Filter::StationName(fc.exclude_names().unwrap()).filter(&mut r));
    assert!(Filter::SystemName(fc.exclude_systems().unwrap()).filter(&mut r));
}

#[test]
fn bad_patterns_are_errors() {
    let fc = filter_config(vec!["("], vec!["["]);
    assert!(matches!(fc.exclude_names(), Err(ConfigError::ExcludeNames(_))));
    assert!(matches!(fc.exclude_systems(), Err(ConfigError::ExcludeSystems(_))));
    let cfg = Config::new(
        OutdatedDays { information: None, market: None, shipyard: None, outfitting: None },
        fc,
        10,
        Mode::Oneshot,
        Origin::Current,
    );
    assert!(matches!(cfg.filter(), Err(ConfigError::ExcludeNames(_))));
    let cfg = Config::new(
        OutdatedDays { information: None, market: None, shipyard: None, outfitting: None },
        filter_config(vec![], vec!["["]),
        10,
        Mode::Oneshot,
        Origin::Current,
    );
    assert!(matches!(cfg.filter(), Err(ConfigError::ExcludeSystems(_))));
}

fn sample_config() -> Config {
    let mut fc = filter_config(vec!["Hub$"], vec![]);
    fc.economy = Some(EconomyFilter { list: vec![Economy::Industrial], include_secondary: false });
    fc.pad_size = Some(PadSize { l_pad_only: true });
    fc.planetary = Some(Planetary { allowed: false });
    Config::new(
        OutdatedDays { information: Some(7), market: None, shipyard: None, outfitting: Some(20) },
        fc,
        15,
        Mode::Update,
        Origin::Sol,
    )
}

#[test]
fn config_filters_keep_only_outdated_stations() {
    let cfg = sample_config();
    let filters = cfg.filter().unwrap();
    let visited = Visited::new();

    let good = station("Orbital", "Lave", StationType::OrbisStarport);
    let mut r = make_record(&good, ts(NOW), &visited);
    assert!(filters.filter(&mut r));
    assert_eq!(r.outdated(), Some(30));

    let mut fresh = station("Orbital", "Lave", StationType::OrbisStarport);
    fresh.update_time.information = ts(NOW);
    fresh.update_time.outfitting = None;
    let mut r = make_record(&fresh, ts(NOW), &visited);
    assert!(!filters.filter(&mut r));

    let excluded = station("Big Hub", "Lave", StationType::OrbisStarport);
    let mut r = make_record(&excluded, ts(NOW), &visited);
    assert!(!filters.filter(&mut r));

    let small = station("Orbital", "Lave", StationType::Outpost);
    let mut r = make_record(&small, ts(NOW), &visited);
    assert!(!filters.filter(&mut r));

    let planet = station("Orbital", "Lave", StationType::PlanetaryPort);
    let mut r = make_record(&planet, ts(NOW), &visited);
    assert!(!filters.filter(&mut r));
}

#[test]
fn filters_stop_at_first_refusal() {
    let visited = Visited::new();
    let st = station("A", "S", StationType::Outpost);
    let mut fs = Filters::new();
    fs.add(Filter::LPadOnly);
    fs.add(Filter::Days(DaysFilter::Information(0)));
    let mut r = make_record(&st, ts(NOW), &visited);
    assert!(!fs.filter(&mut r));
    assert!(!r.information_days.is_outdated());

    let empty = Filters::new();
    let mut r = make_record(&st, ts(NOW), &visited);
    assert!(empty.filter(&mut r));
    assert!(!r.information_days.is_outdated());
}

#[test]
fn config_getters_and_args() {
    let mut cfg = sample_config();
    assert_eq!(cfg.max_entries(), 15);
    assert_eq!(cfg.mode(), mode::Mode::Update);
    assert_eq!(cfg.get_loc_func(), Origin::Sol);
    assert_eq!(cfg.filter_config().exclude_names, vec!["Hub$".to_string()]);

    cfg.apply_args(Some("30"), Some("oneshot"), Some("current")).unwrap();
    assert_eq!(cfg.max_entries(), 30);
    assert_eq!(cfg.mode(), mode::Mode::Oneshot);
    assert_eq!(cfg.get_loc_func(), Origin::Current);

    cfg.apply_args(Some("+4"), None, Some("Sol")).unwrap();
    assert_eq!(cfg.max_entries(), 4);
    assert_eq!(cfg.mode(), mode::Mode::Oneshot);
    assert_eq!(cfg.get_loc_func(), Origin::Sol);

    assert!(matches!(cfg.apply_args(Some("ten"), Some("update"), None), Err(ConfigError::MaxEntries(_))));
    assert!(matches!(cfg.apply_args(Some("-1"), None, None), Err(ConfigError::MaxEntries(_))));
    assert!(matches!(cfg.apply_args(Some(""), None, None), Err(ConfigError::MaxEntries(_))));
    assert!(matches!(
        cfg.apply_args(Some("99999999999999999999999"), None, None),
        Err(ConfigError::MaxEntries(_))
    ));
    assert_eq!(cfg.max_entries(), 4);
    assert_eq!(cfg.mode(), mode::Mode::Oneshot);
}

#[test]
fn defaults() {
    assert_eq!(Mode::default(), Mode::Oneshot);
    assert_eq!(Origin::default(), Origin::Current);
    let _ = TextPrinter::new();
}

#[test]
fn etag_table_reads_back_writes() {
    let mut t = EtagTable::new();
    assert_eq!(t.get("u"), None);
    t.save("u", "tag1");
    t.save("v", "tag2");
    assert_eq!(t.get("u"), Some("tag1".to_string()));
    t.save("u", "tag3");
    assert_eq!(t.get("u"), Some("tag3".to_string()));
    assert_eq!(t.get("v"), Some("tag2".to_string()));
    assert_eq!(t.entries().len(), 2);
    t.remove("u");
    assert_eq!(t.get("u"), None);
    assert_eq!(t.get("v"), Some("tag2".to_string()));
    t.remove("missing");
    assert_eq!(t.entries().len(), 1);
    t.record_response("v", None);
    assert_eq!(t.get("v"), None);
    t.record_response("w", Some("x"));
    assert_eq!(t.get("w"), Some("x".to_string()));
}

#[test]
fn etag_storage_keeps_its_path() {
    let s = EtagStoreage::new("./.cache.json");
    assert_eq!(s.path(), "./.cache.json");
    let s2 = near_old_stations::stations::download::EtagStoreage::new("x");
    assert_eq!(s2.path(), "x");
}

#[test]
fn visited_set_equality() {
    let mut a = Visited::new();
    let mut b = Visited::new();
    assert!(a.same_as(&b));
    a.insert(1);
    a.insert(2);
    a.insert(1);
    assert_eq!(a.len(), 2);
    b.insert(2);
    assert!(!a.same_as(&b));
    b.insert(1);
    assert!(a.same_as(&b));
    assert!(a.is_visited(1) && !a.is_visited(3));
}

type Ev = JournalEvent<u32>;

#[test]
fn journal_scan_finds_newest_position() {
    // oldest first
    let files: Vec<Vec<Ev>> = vec![
        vec![Ev::Docked(1), Ev::Location(10)],
        vec![Ev::FsdJump(20), Ev::Docked(2), Ev::FsdJump(21), Ev::Other],
        vec![Ev::Docked(3), Ev::Other],
    ];
    let (loc, visited) = scan_journals(&files).unwrap();
    assert_eq!(loc, 21);
    assert!(visited.is_visited(1) && visited.is_visited(2) && visited.is_visited(3));
    assert_eq!(visited.len(), 3);
}

#[test]
fn journal_scan_without_position_fails() {
    let files: Vec<Vec<Ev>> = vec![vec![Ev::Docked(1)], vec![Ev::Other]];
    assert!(matches!(scan_journals(&files), Err(JournalError::NoLocation)));
    let none: Vec<Vec<Ev>> = vec![];
    assert!(matches!(scan_journals(&none), Err(JournalError::NoLocation)));
}

#[test]
fn journal_scan_reads_fifty_older_files() {
    let mut files: Vec<Vec<Ev>> = Vec::new();
    for i in 0..60u64 {
        files.push(vec![Ev::Docked(i)]);
    }
    files.push(vec![Ev::Location(5), Ev::Docked(100)]);
    let (loc, visited) = scan_journals(&files).unwrap();
    assert_eq!(loc, 5);
    assert!(visited.is_visited(100));
    assert!(visited.is_visited(59));
    assert!(visited.is_visited(10));
    assert!(!visited.is_visited(9));
    assert_eq!(visited.len(), 51);
}

#[test]
fn journal_scan_step_by_step() {
    let mut scan: JournalScan<u32> = JournalScan::new(2);
    assert_eq!(scan.next_file(), Some(1));
    scan.on_event(Ev::Location(3));
    scan.end_file();
    assert_eq!(scan.next_file(), Some(0));
    scan.on_event(Ev::Location(4));
    scan.on_event(Ev::Docked(8));
    scan.end_file();
    assert_eq!(scan.next_file(), None);
    let (loc, visited) = scan.finish().unwrap();
    assert_eq!(loc, 3);
    assert!(visited.is_visited(8));
}

#[test]
fn merge_coords_partitions_stations() {
    let mut a = station("A", "S", StationType::Outpost);
    a.system_id = 1;
    let mut b = station("B", "S", StationType::Outpost);
    b.system_id = 2;
    let mut c = station("C", "S", StationType::Outpost);
    c.system_id = 1;
    let raw = Stations::new(vec![a, b, c], Some(ts(5)));
    let mut table = HashMap::new();
    table.insert(1u64, 99u32);
    let merged = merge_coords(raw, &table);
    assert_eq!(merged.last_mod(), Some(ts(5)));
    let names: Vec<&str> = merged.stations().iter().map(|s| s.name.as_str()).collect();
    assert_eq!(names, vec!["A", "C"]);
    assert!(merged.stations().iter().all(|s| s.coords == 99));
    assert_eq!(merged.missing_coords_stations().len(), 1);
    assert_eq!(merged.missing_coords_stations()[0].name, "B");
    assert_eq!(merged.into_list().len(), 2);
}

#[test]
fn decoder_reads_one_item_per_line() {
    let mut d = Decoder::new(());
    assert!(matches!(d.feed("[\n"), DecodeStep::Skip));
    match d.feed("  {\"id\": 1},\n") {
        DecodeStep::Item(s) => assert_eq!(s, "{\"id\": 1}"),
        _ => panic!("expected an item"),
    }
    d.consumed();
    match d.feed("{\"id\": 2},,\n") {
        DecodeStep::Item(s) => assert_eq!(s, "{\"id\": 2}"),
        _ => panic!("expected an item"),
    }
    d.consumed();
    assert!(matches!(d.feed("]\n"), DecodeStep::End));
    let mut e = Decoder::new(());
    match e.feed("") {
        DecodeStep::Item(s) => assert_eq!(s, ""),
        _ => panic!("end of input is an empty item"),
    }
}

#[test]
fn day_histogram() {
    let rows = count_days(&vec![3, 1, 3, 2, 3]);
    assert_eq!(
        rows,
        vec![
            DayCount { day: 1, count: 1, acc: 1 },
            DayCount { day: 2, count: 1, acc: 2 },
            DayCount { day: 3, count: 3, acc: 5 },
        ]
    );
    assert!(count_days(&vec![]).is_empty());
    let rows = count(ts(10 * DAY), &vec![ts(9 * DAY), ts(0), ts(9 * DAY + 1)]);
    assert_eq!(
        rows,
        vec![DayCount { day: 0, count: 1, acc: 1 }, DayCount { day: 1, count: 1, acc: 2 }, DayCount {
            day: 10,
            count: 1,
            acc: 3,
        }]
    );
}

#[test]
fn refresh_decision() {
    assert!(!needs_refresh(true, true, true));
    assert!(needs_refresh(false, true, true));
    assert!(needs_refresh(true, false, true));
    assert!(needs_refresh(true, true, false));
}

#[test]
fn record_struct_is_plain() {
    let st = station("A", "S", StationType::Outpost);
    let r: Record<u32, u32> = Record {
        station: &st,
        visited: false,
        information_days: Days::new(1),
        market_days: Days::empty(),
        shipyard_days: Days::empty(),
        outfitting_days: Days::empty(),
    };
    assert_eq!(r.outdated(), None);
    assert_eq!(outdated_marks(&r), "    ");
}

#[test]
fn search_keeps_filtered_stations_in_order() {
    let a = station("A", "S", StationType::OrbisStarport);
    let b = station("B", "S", StationType::Outpost);
    let c = station("C", "S", StationType::OrbisStarport);
    let mut d = station("D", "S", StationType::OrbisStarport);
    d.update_time.information = ts(NOW);
    d.update_time.market = None;
    d.update_time.outfitting = None;
    let stations = Stations::new(vec![a, b, c, d], Some(ts(1)));
    let mut fs = Filters::new();
    fs.add(Filter::Days(DaysFilter::Information(5)));
    fs.add(Filter::Outdated);
    fs.add(Filter::LPadOnly);
    let searcher = Searcher::new(stations, fs);
    assert!(searcher.stations().stations().iter().all(|s| s.update_time.is_representable()));
    let visited = Visited::new();
    let found = searcher.search(&vec![true, true, false, true], ts(NOW), &visited);
    let names: Vec<&str> = found.iter().map(|r| r.station.name.as_str()).collect();
    assert_eq!(names, vec!["A"]);
    assert_eq!(found[0].outdated(), Some(10));
    let found = searcher.search(&vec![true, true, true, true], ts(NOW), &visited);
    assert_eq!(found.len(), 2);
}

#[test]
fn timestamps_representable_by_chrono() {
    assert!(ts(0).is_representable());
    assert!(ts(-8_334_601_228_800).is_representable());
    assert!(!ts(-8_334_601_228_801).is_representable());
    assert!(ts(8_210_266_876_799).is_representable());
    assert!(!ts(8_210_266_876_800).is_representable());
    assert!(Timestamp { secs: 59, nanos: 1_500_000_000 }.is_representable());
    assert!(Timestamp { secs: -1, nanos: 1_000_000_000 }.is_representable());
    assert!(!Timestamp { secs: 58, nanos: 1_000_000_000 }.is_representable());
    assert!(!Timestamp { secs: 59, nanos: 2_000_000_000 }.is_representable());
}

#[test]
fn journal_files_picks_journal_names() {
    let names = vec![
        Some("Journal.200101120000.01.log".to_string()),
        Some("Status.json".to_string()),
        None,
        Some("Journal.20010112000.01.log".to_string()),
        Some("Journal.210203040506.12.log".to_string()),
    ];
    assert_eq!(journal_files(&names).unwrap(), vec![0, 4]);
}

#[test]
fn decoder_trims_unicode_whitespace() {
    let mut d = Decoder::new(());
    assert!(matches!(d.feed("\u{a0}\u{3000}[\u{2028}\r\n"), DecodeStep::Skip));
    match d.feed("\t\u{2003}{\"name\": \"é\"},\u{85}\n") {
        DecodeStep::Item(s) => assert_eq!(s, "{\"name\": \"é\"}"),
        _ => panic!("expected an item"),
    }
    d.consumed();
    match d.feed("x\u{200b}") {
        DecodeStep::Item(s) => assert_eq!(s, "x\u{200b}"),
        _ => panic!("a zero width space is no whitespace"),
    }
    d.consumed();
    assert!(matches!(d.feed(" ]\u{205f}"), DecodeStep::End));
}

#[test]
fn excluded_stations_are_left_out() {
    let fc = filter_config(vec!["^Carrier", "Hub$"], vec!["^Sol$"]);
    let names = fc.exclude_names().unwrap();
    let systems = fc.exclude_systems().unwrap();
    let sts = vec![
        station("Carrier X", "Lave", StationType::Outpost),
        station("Orbital", "Lave", StationType::Outpost),
        station("Abraham", "Sol", StationType::Outpost),
        station("Big Hub", "Diso", StationType::Outpost),
        station("Dock", "Solati", StationType::Outpost),
    ];
    let kept: Vec<String> = without_excluded(sts, &names, &systems).into_iter().map(|s| s.name).collect();
    assert_eq!(kept, vec!["Orbital".to_string(), "Dock".to_string()]);
}

#[test]
fn config_filter_succeeds_with_good_patterns() {
    let cfg = Config::new(
        OutdatedDays { information: Some(7), market: None, shipyard: None, outfitting: None },
        filter_config(vec!["Hub$", "^[A-Z]+$"], vec!["Sol|Lave"]),
        10,
        Mode::Oneshot,
        Origin::Current,
    );
    let filters = cfg.filter().unwrap();
    let visited = Visited::new();
    let kept = station("Orbital", "Diso", StationType::Outpost);
    let mut r = make_record(&kept, ts(NOW), &visited);
    assert!(filters.filter(&mut r));
    let left_out = station("Orbital", "Lave", StationType::Outpost);
    let mut r = make_record(&left_out, ts(NOW), &visited);
    assert!(!filters.filter(&mut r));
}

#[test]
fn update_loop_prints_on_change_or_after_a_minute() {
    let mut lp = UpdateLoop::new();
    let r = |same_location, same_visited, now| Report { same_location, same_visited, now };
    assert_eq!(lp.observe(r(false, false, 0)), Action::Print);
    assert_eq!(lp.observe(r(true, true, 5_000)), Action::Skip);
    assert_eq!(lp.observe(r(false, true, 10_000)), Action::ClearAndPrint);
    assert_eq!(lp.observe(r(true, true, 69_999)), Action::Skip);
    assert_eq!(lp.observe(r(true, true, 70_000)), Action::ClearAndPrint);
    assert_eq!(lp.observe(r(true, false, 71_000)), Action::ClearAndPrint);
    assert_eq!(lp.observe(r(true, true, 72_000)), Action::Skip);
}

#[test]
fn filters_through_the_record_filter_trait() {
    let visited = Visited::new();
    let st = station("Orbital", "Lave", StationType::Outpost);
    let mut r = make_record(&st, ts(NOW), &visited);
    assert!(RecordFilter::filter(&DaysFilter::Information(7), &mut r));
    assert_eq!(r.outdated(), Some(10));
    assert!(!RecordFilter::filter(&Filter::LPadOnly, &mut r));
    let mut fs = Filters::new();
    fs.add(Filter::Outdated);
    assert!(RecordFilter::filter(&fs, &mut r));
}

#[test]
fn ages_across_a_leap_second() {
    let leap = Timestamp { secs: 59, nanos: 1_500_000_000 };
    assert_eq!(ages(ts(86_460), &vec![leap]), vec![1]);
    assert_eq!(ages(ts(86_459), &vec![leap]), vec![0]);
    assert_eq!(ages(ts(59), &vec![leap]), vec![0]);
    assert_eq!(ages(ts(-86_400), &vec![ts(0)]), vec![-1]);
    assert_eq!(ages(ts(-86_399), &vec![ts(0)]), vec![0]);
}

#[test]
fn only_304_keeps_the_cached_dump() {
    assert!(is_not_modified(304));
    assert!(!is_not_modified(200));
    assert!(!is_not_modified(206));
}

#[test]
fn decoder_skips_a_run_of_opening_brackets() {
    let mut d = Decoder::new(());
    assert!(matches!(d.feed("[\n"), DecodeStep::Skip));
    assert!(matches!(d.feed("  [,\n"), DecodeStep::Skip));
    assert!(matches!(d.feed("[\r\n"), DecodeStep::Skip));
    match d.feed("{\"id\": 3},\n") {
        DecodeStep::Item(s) => assert_eq!(s, "{\"id\": 3}"),
        _ => panic!("expected the first item"),
    }
    let mut e = Decoder::new(());
    assert!(matches!(e.feed("[\n"), DecodeStep::Skip));
    assert!(matches!(e.feed("]\n"), DecodeStep::End));
}
