use vstd::prelude::*;

pub mod download;

use std::collections::HashMap;

use crate::strings::str_equals;
use crate::time::Timestamp;

verus! {

/// The kinds of station in the EDSM dump.
#[derive(Clone, Copy, Debug, PartialEq, Eq, Hash, Structural)]
pub enum StationType {
    // Orbital, large pads
    OcellusStarport,
    OrbisStarport,
    CoriolisStarport,
    AsteroidBase,
    MegaShip,
    // Orbital, small and medium pads only
    Outpost,
    // Planetary
    PlanetaryPort,
    PlanetaryOutpost,
}

impl StationType {
    /// Stations with a large landing pad: all kinds but outposts.
    pub open spec fn spec_has_l_pad(self) -> bool {
        self != StationType::Outpost
    }

    /// Stations on a planet's surface.
    pub open spec fn spec_is_planetary(self) -> bool {
        self == StationType::PlanetaryPort || self == StationType::PlanetaryOutpost
    }

    /// The short name shown in listings.
    pub open spec fn spec_label(self) -> Seq<char> {
        match self {
            StationType::OcellusStarport => "Ocellus"@,
            StationType::OrbisStarport => "Orbis"@,
            StationType::CoriolisStarport => "Coriolis"@,
            StationType::AsteroidBase => "Asteroid"@,
            StationType::MegaShip => "MegaShip"@,
            StationType::Outpost => "Outpost"@,
            StationType::PlanetaryPort => "PlanetaryPort"@,
            StationType::PlanetaryOutpost => "PlanetaryOutpost"@,
        }
    }

    pub fn has_l_pad(self) -> (res: bool)
        ensures
            res == self.spec_has_l_pad(),
    {
        match self {
            StationType::Outpost => false,
            _ => true,
        }
    }

    pub fn is_planetary(self) -> (res: bool)
        ensures
            res == self.spec_is_planetary(),
    {
        match self {
            StationType::PlanetaryPort => true,
            StationType::PlanetaryOutpost => true,
            _ => false,
        }
    }

    /// The short name shown in listings.
    pub fn label(self) -> (res: &'static str)
        ensures
            res@ == self.spec_label(),
    {
        match self {
            StationType::OcellusStarport => "Ocellus",
            StationType::OrbisStarport => "Orbis",
            StationType::CoriolisStarport => "Coriolis",
            StationType::AsteroidBase => "Asteroid",
            StationType::MegaShip => "MegaShip",
            StationType::Outpost => "Outpost",
            StationType::PlanetaryPort => "PlanetaryPort",
            StationType::PlanetaryOutpost => "PlanetaryOutpost",
        }
    }
}

/// Every planetary station has a large pad.
pub proof fn lemma_planetary_has_l_pad(t: StationType)
    ensures
        t.spec_is_planetary() ==> t.spec_has_l_pad(),
{
}

/// The economies a station can have.
#[derive(Clone, Copy, Debug, PartialEq, Eq, Hash, Structural)]
pub enum Economy {
    Agriculture,
    Colony,
    Extraction,
    HighTech,
    Industrial,
    Military,
    Prison,
    Refinery,
    Repair,
    Rescue,
    Service,
    Terraforming,
    Tourism,
}

/// When the parts of a station's data were last updated.
#[derive(Clone, Copy, Debug)]
pub struct UpdateTime {
    pub information: Timestamp,
    pub market: Option<Timestamp>,
    pub shipyard: Option<Timestamp>,
    pub outfitting: Option<Timestamp>,
}

impl UpdateTime {
    /// Whether chrono can represent each of the times.
    pub open spec fn all_valid(self) -> bool {
        &&& self.information.is_valid()
        &&& self.market matches Some(t) ==> t.is_valid()
        &&& self.shipyard matches Some(t) ==> t.is_valid()
        &&& self.outfitting matches Some(t) ==> t.is_valid()
    }

    /// Whether chrono can represent each of the times.
    pub fn is_representable(&self) -> (res: bool)
        ensures
            res == self.all_valid(),
    {
        self.information.is_representable() && match self.market {
            Some(t) => t.is_representable(),
            None => true,
        } && match self.shipyard {
            Some(t) => t.is_representable(),
            None => true,
        } && match self.outfitting {
            Some(t) => t.is_representable(),
            None => true,
        }
    }

    pub fn information(&self) -> (res: Timestamp)
        ensures
            res == self.information,
    {
        self.information
    }

    pub fn market(&self) -> (res: Option<Timestamp>)
        ensures
            res == self.market,
    {
        self.market
    }

    pub fn shipyard(&self) -> (res: Option<Timestamp>)
        ensures
            res == self.shipyard,
    {
        self.shipyard
    }

    pub fn outfitting(&self) -> (res: Option<Timestamp>)
        ensures
            res == self.outfitting,
    {
        self.outfitting
    }
}

/// A station of the dump. The coordinates of its system (`C`) and its distance
/// from the star (`D`) are carried for the caller; the library never computes with them.
#[derive(Clone, Debug)]
pub struct Station<C, D> {
    pub coords: C,
    pub distance_to_arrival: Option<D>,
    pub economy: Option<Economy>,
    pub market_id: Option<u64>,
    pub name: String,
    pub second_economy: Option<Economy>,
    pub st_type: StationType,
    pub system_id: u64,
    pub system_name: String,
    pub update_time: UpdateTime,
}

impl<C, D> Station<C, D> {
    pub fn update_time(&self) -> (res: &UpdateTime)
        ensures
            *res == self.update_time,
    {
        &self.update_time
    }
}

/// The stations of the dump: those whose system position is known, those whose
/// position is missing, and when the dump was last modified.
#[derive(Debug)]
pub struct Stations<C, D> {
    list: Vec<Station<C, D>>,
    missing_coords_stations: Vec<Station<C, D>>,
    last_mod: Option<Timestamp>,
}

impl<C, D> Stations<C, D> {
    pub closed spec fn list(self) -> Seq<Station<C, D>> {
        self.list@
    }

    pub closed spec fn missing(self) -> Seq<Station<C, D>> {
        self.missing_coords_stations@
    }

    pub closed spec fn spec_last_mod(self) -> Option<Timestamp> {
        self.last_mod
    }

    /// Stations as read from the dump, before their systems are located.
    pub fn new(list: Vec<Station<C, D>>, last_mod: Option<Timestamp>) -> (res: Stations<C, D>)
        ensures
            res.list() == list@,
            res.missing() == Seq::<Station<C, D>>::empty(),
            res.spec_last_mod() == last_mod,
    {
        Stations { list, missing_coords_stations: Vec::new(), last_mod }
    }

    pub fn stations(&self) -> (res: &Vec<Station<C, D>>)
        ensures
            res@ == self.list(),
    {
        &self.list
    }

    pub fn missing_coords_stations(&self) -> (res: &Vec<Station<C, D>>)
        ensures
            res@ == self.missing(),
    {
        &self.missing_coords_stations
    }

    pub fn into_list(self) -> (res: Vec<Station<C, D>>)
        ensures
            res@ == self.list(),
    {
        self.list
    }

    pub fn last_mod(&self) -> (res: Option<Timestamp>)
        ensures
            res == self.spec_last_mod(),
    {
        self.last_mod
    }
}

/// The stations of `s` whose system has a position in `table`, with that position.
pub open spec fn located<C, D>(s: Seq<Station<C, D>>, table: Map<u64, C>) -> Seq<Station<C, D>>
    decreases s.len(),
{
    if s.len() == 0 {
        Seq::empty()
    } else {
        let rest = located(s.drop_last(), table);
        let st = s.last();
        if table.contains_key(st.system_id) {
            rest.push(Station { coords: table[st.system_id], ..st })
        } else {
            rest
        }
    }
}

/// The stations of `s` whose system has no position in `table`.
pub open spec fn unlocated<C, D>(s: Seq<Station<C, D>>, table: Map<u64, C>) -> Seq<Station<C, D>>
    decreases s.len(),
{
    if s.len() == 0 {
        Seq::empty()
    } else {
        let rest = unlocated(s.drop_last(), table);
        let st = s.last();
        if table.contains_key(st.system_id) {
            rest
        } else {
            rest.push(st)
        }
    }
}

/// Gives each station the position of its system from `table`; stations whose
/// system is not there are set apart. Order is kept.
pub fn merge_coords<C: Copy, D>(stations: Stations<C, D>, table: &HashMap<u64, C>) -> (res: Stations<C, D>)
    ensures
        res.list() == located(stations.list(), table@),
        res.missing() == unlocated(stations.list(), table@),
        res.spec_last_mod() == stations.spec_last_mod(),
{
    broadcast use vstd::std_specs::hash::group_hash_axioms;

    let last_mod = stations.last_mod();
    let ghost input = stations.list();
    let mut list: Vec<Station<C, D>> = Vec::new();
    let mut missing_coords_stations: Vec<Station<C, D>> = Vec::new();
    for st in it: stations.into_list().into_iter()
        invariant
            it.seq() == input,
            list@ == located(input.take(it.index() as int), table@),
            missing_coords_stations@ == unlocated(input.take(it.index() as int), table@),
    {
        let ghost i = it.index() as int;
        proof {
            assert(input.take(i + 1).drop_last() == input.take(i));
            assert(input.take(i + 1).last() == st);
        }
        let mut st = st;
        match table.get(&st.system_id) {
            Some(c) => {
                st.coords = *c;
                list.push(st);
            },
            None => {
                missing_coords_stations.push(st);
            },
        }
    }
    proof {
        assert(input.take(input.len() as int) == input);
    }
    Stations { list, missing_coords_stations, last_mod }
}

/// Merging splits the stations: as many come out as went in; those kept have their
/// system in the table and its position; those set apart have not.
pub proof fn lemma_merge_partitions<C, D>(s: Seq<Station<C, D>>, table: Map<u64, C>)
    ensures
        located(s, table).len() + unlocated(s, table).len() == s.len(),
        forall|i: int|
            0 <= i < located(s, table).len() ==> table.contains_key(#[trigger] located(s, table)[i].system_id)
                && located(s, table)[i].coords == table[located(s, table)[i].system_id],
        forall|i: int|
            0 <= i < unlocated(s, table).len() ==> !table.contains_key(#[trigger] unlocated(s, table)[i].system_id),
    decreases s.len(),
{
    if s.len() > 0 {
        lemma_merge_partitions(s.drop_last(), table);
        let l = located(s.drop_last(), table);
        let u = unlocated(s.drop_last(), table);
        assert forall|i: int| 0 <= i < located(s, table).len() implies table.contains_key(#[trigger] located(s, table)[i].system_id)
            && located(s, table)[i].coords == table[located(s, table)[i].system_id] by {
            if i < l.len() {
                assert(located(s, table)[i] == l[i]);
            }
        }
        assert forall|i: int| 0 <= i < unlocated(s, table).len() implies !table.contains_key(#[trigger] unlocated(s, table)[i].system_id) by {
            if i < u.len() {
                assert(unlocated(s, table)[i] == u[i]);
            }
        }
    }
}

/// Whether `c` has the Unicode `White_Space` property, which is what
/// `char::is_whitespace` and `str::trim` go by.
pub open spec fn is_white_space(c: char) -> bool {
    ||| '\u{9}' <= c <= '\u{d}'
    ||| c == ' '
    ||| c == '\u{85}'
    ||| c == '\u{a0}'
    ||| c == '\u{1680}'
    ||| '\u{2000}' <= c <= '\u{200a}'
    ||| c == '\u{2028}'
    ||| c == '\u{2029}'
    ||| c == '\u{202f}'
    ||| c == '\u{205f}'
    ||| c == '\u{3000}'
}

/// The text without the whitespace at its start.
pub open spec fn without_leading_white_space(s: Seq<char>) -> Seq<char>
    decreases s.len(),
{
    if s.len() > 0 && is_white_space(s[0]) {
        without_leading_white_space(s.drop_first())
    } else {
        s
    }
}

/// The text without the whitespace at its end.
pub open spec fn without_trailing_white_space(s: Seq<char>) -> Seq<char>
    decreases s.len(),
{
    if s.len() > 0 && is_white_space(s.last()) {
        without_trailing_white_space(s.drop_last())
    } else {
        s
    }
}

/// The text without leading and trailing whitespace, as `str::trim` gives it.
pub open spec fn trimmed(s: Seq<char>) -> Seq<char> {
    without_trailing_white_space(without_leading_white_space(s))
}

/// The text without the commas at its end.
pub open spec fn without_trailing_commas(s: Seq<char>) -> Seq<char>
    decreases s.len(),
{
    if s.len() > 0 && s.last() == ',' {
        without_trailing_commas(s.drop_last())
    } else {
        s
    }
}

fn is_white_space_char(c: char) -> (res: bool)
    ensures
        res == is_white_space(c),
{
    ('\u{9}' <= c && c <= '\u{d}') || c == ' ' || c == '\u{85}' || c == '\u{a0}' || c == '\u{1680}'
        || ('\u{2000}' <= c && c <= '\u{200a}') || c == '\u{2028}' || c == '\u{2029}' || c
        == '\u{202f}' || c == '\u{205f}' || c == '\u{3000}'
}

/// `s` without leading and trailing whitespace.
fn str_trim<'a>(s: &'a str) -> (res: &'a str)
    ensures
        res@ == trimmed(s@),
{
    let n = s.unicode_len();
    assert(s@.subrange(0, n as int) =~= s@);
    let mut start: usize = 0;
    while start < n && is_white_space_char(s.get_char(start))
        invariant
            n == s@.len(),
            start <= n,
            without_leading_white_space(s@) == without_leading_white_space(
                s@.subrange(start as int, n as int),
            ),
        decreases n - start,
    {
        assert(s@.subrange(start as int, n as int).drop_first() =~= s@.subrange(
            start + 1,
            n as int,
        ));
        start += 1;
    }
    let ghost rest = s@.subrange(start as int, n as int);
    assert(without_leading_white_space(s@) == rest);
    let mut end: usize = n;
    while end > start && is_white_space_char(s.get_char(end - 1))
        invariant
            n == s@.len(),
            start <= end <= n,
            rest == s@.subrange(start as int, n as int),
            without_trailing_white_space(rest) == without_trailing_white_space(
                s@.subrange(start as int, end as int),
            ),
        decreases end - start,
    {
        assert(s@.subrange(start as int, end as int).drop_last() =~= s@.subrange(
            start as int,
            end - 1,
        ));
        end -= 1;
    }
    s.substring_char(start, end)
}

/// `s` without the commas at its end, as `str::trim_end_matches(',')` gives it.
fn str_trim_trailing_commas<'a>(s: &'a str) -> (res: &'a str)
    ensures
        res@ == without_trailing_commas(s@),
{
    let n = s.unicode_len();
    assert(s@.subrange(0, n as int) =~= s@);
    let mut end: usize = n;
    while end > 0 && s.get_char(end - 1) == ','
        invariant
            n == s@.len(),
            end <= n,
            without_trailing_commas(s@) == without_trailing_commas(s@.subrange(0, end as int)),
        decreases end,
    {
        assert(s@.subrange(0, end as int).drop_last() =~= s@.subrange(0, end - 1));
        end -= 1;
    }
    s.substring_char(0, end)
}

/// What a line of a dump is, once the pending text is trimmed of whitespace and
/// trailing commas: the opening bracket, the closing bracket, or an item.
pub enum DecodeStep {
    Skip,
    End,
    Item(String),
}

/// The text of the pending lines that decides the step.
pub open spec fn decode_text(pending: Seq<char>) -> Seq<char> {
    without_trailing_commas(trimmed(pending))
}

/// The pending text once `line` is fed after `pending`: nothing after the
/// opening bracket, else all of it.
pub open spec fn pending_after(pending: Seq<char>, line: Seq<char>) -> Seq<char> {
    if decode_text(pending + line) == "["@ {
        Seq::empty()
    } else {
        pending + line
    }
}

/// The pending text of a new decoder once the lines are fed in order.
pub open spec fn pending_after_lines(lines: Seq<Seq<char>>) -> Seq<char>
    decreases lines.len(),
{
    if lines.len() == 0 {
        Seq::empty()
    } else {
        pending_after(pending_after_lines(lines.drop_last()), lines.last())
    }
}

/// The text that decides the step of the `i`-th line fed to a new decoder.
pub open spec fn text_at(lines: Seq<Seq<char>>, i: int) -> Seq<char> {
    decode_text(pending_after_lines(lines.take(i)) + lines[i])
}

/// A new decoder skips any run of lines that are the opening bracket once
/// trimmed, and decides the first line after them on that line alone: the closing
/// bracket ends the dump, any other text is the item.
pub proof fn lemma_decoder_skips_opening_lines(lines: Seq<Seq<char>>, k: int)
    requires
        0 <= k < lines.len(),
        forall|i: int| 0 <= i < k ==> decode_text(#[trigger] lines[i]) == "["@,
    ensures
        forall|i: int| 0 <= i < k ==> #[trigger] text_at(lines, i) == "["@,
        text_at(lines, k) == decode_text(lines[k]),
{
    assert forall|i: int| 0 <= i <= k implies pending_after_lines(#[trigger] lines.take(i)) == Seq::<char>::empty() by {
        lemma_pending_empty_through(lines, k, i);
    }
    assert forall|i: int| 0 <= i < k implies #[trigger] text_at(lines, i) == "["@ by {
        assert(pending_after_lines(lines.take(i)) == Seq::<char>::empty());
        assert(Seq::<char>::empty() + lines[i] =~= lines[i]);
    }
    assert(pending_after_lines(lines.take(k)) == Seq::<char>::empty());
    assert(Seq::<char>::empty() + lines[k] =~= lines[k]);
}

proof fn lemma_pending_empty_through(lines: Seq<Seq<char>>, k: int, i: int)
    requires
        0 <= i <= k < lines.len(),
        forall|j: int| 0 <= j < k ==> decode_text(#[trigger] lines[j]) == "["@,
    ensures
        pending_after_lines(lines.take(i)) == Seq::<char>::empty(),
    decreases i,
{
    if i == 0 {
        assert(lines.take(0) == Seq::<Seq<char>>::empty());
    } else {
        lemma_pending_empty_through(lines, k, i - 1);
        assert(lines.take(i).drop_last() == lines.take(i - 1));
        assert(lines.take(i).last() == lines[i - 1]);
        assert(Seq::<char>::empty() + lines[i - 1] =~= lines[i - 1]);
        assert(decode_text(lines[i - 1]) == "["@);
    }
}

/// Reads a dump written as a JSON array with one item per line. The caller reads
/// lines from `r` and hands them to `feed`; after it has decoded an item, it calls
/// `consumed`.
pub struct Decoder<R> {
    pub r: R,
    buf: String,
}

impl<R> Decoder<R> {
    /// The source of the lines.
    pub closed spec fn reader(self) -> R {
        self.r
    }

    /// The text read but not yet consumed.
    pub closed spec fn pending(self) -> Seq<char> {
        self.buf@
    }

    pub fn new(r: R) -> (res: Decoder<R>)
        ensures
            res.reader() == r,
            res.pending() == Seq::<char>::empty(),
    {
        Decoder { r, buf: String::new() }
    }

    /// Takes in one more line. The opening bracket is skipped and dropped, the
    /// closing bracket ends the dump, and any other text is an item to decode.
    pub fn feed(&mut self, line: &str) -> (res: DecodeStep)
        ensures
            final(self).reader() == old(self).reader(),
            final(self).pending() == pending_after(old(self).pending(), line@),
            ({
                let text = decode_text(old(self).pending() + line@);
                if text == "["@ {
                    res is Skip
                } else if text == "]"@ {
                    res is End
                } else {
                    res matches DecodeStep::Item(item) && item@ == text
                }
            }),
    {
        self.buf.append(line);
        let item = str_trim_trailing_commas(str_trim(self.buf.as_str()));
        if str_equals(item, "[") {
            self.buf = String::new();
            DecodeStep::Skip
        } else if str_equals(item, "]") {
            DecodeStep::End
        } else {
            DecodeStep::Item(String::from_str(item))
        }
    }

    /// Drops the text of the item just decoded.
    pub fn consumed(&mut self)
        ensures
            final(self).reader() == old(self).reader(),
            final(self).pending() == Seq::<char>::empty(),
    {
        self.buf = String::new();
    }
}

} // verus!
