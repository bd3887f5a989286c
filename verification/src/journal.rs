use vstd::prelude::*;

use std::collections::HashSet;

use crate::patterns::{regex_compiles, regex_matches, Pattern};

verus! {

broadcast use {vstd::std_specs::hash::group_hash_axioms, vstd::seq_lib::group_seq_properties};

/// The markets (by market id) that the commander docked at.
#[derive(Debug)]
pub struct Visited {
    ids: HashSet<u64>,
    order: Vec<u64>,
}

impl View for Visited {
    type V = Set<u64>;

    closed spec fn view(&self) -> Set<u64> {
        self.ids@
    }
}

impl Visited {
    #[verifier::type_invariant]
    closed spec fn inv(self) -> bool {
        &&& self.order@.no_duplicates()
        &&& self.order@.to_set() == self.ids@
    }

    pub fn new() -> (res: Visited)
        ensures
            res@ == Set::<u64>::empty(),
    {
        let ids: HashSet<u64> = HashSet::new();
        let order: Vec<u64> = Vec::new();
        assert(order@.to_set() =~= ids@);
        Visited { ids, order }
    }

    pub fn insert(&mut self, id: u64)
        ensures
            final(self)@ == old(self)@.insert(id),
    {
        let mut taken = Visited::new();
        std::mem::swap(self, &mut taken);
        proof {
            use_type_invariant(&taken);
        }
        let Visited { mut ids, mut order } = taken;
        if !ids.contains(&id) {
            let ghost prev = order@;
            ids.insert(id);
            order.push(id);
            proof {
                assert(order@ == prev.push(id));
                assert(order@.to_set() =~= prev.to_set().insert(id));
            }
        }
        *self = Visited { ids, order };
    }

    pub fn is_visited(&self, id: u64) -> (res: bool)
        ensures
            res == self@.contains(id),
    {
        self.ids.contains(&id)
    }

    /// Whether both hold exactly the same markets.
    pub fn same_as(&self, other: &Visited) -> (res: bool)
        ensures
            res == (self@ == other@),
    {
        proof {
            use_type_invariant(self);
            use_type_invariant(other);
            self.order@.unique_seq_to_set();
            other.order@.unique_seq_to_set();
        }
        if self.order.len() != other.order.len() {
            return false;
        }
        let n = self.order.len();
        let mut i: usize = 0;
        while i < n
            invariant
                n == self.order@.len(),
                0 <= i <= n,
                forall|j: int| 0 <= j < i ==> other@.contains(#[trigger] self.order@[j]),
            decreases n - i,
        {
            if !other.ids.contains(&self.order[i]) {
                proof {
                    use_type_invariant(self);
                }
                assert(self@.contains(self.order@[i as int]));
                return false;
            }
            i += 1;
        }
        proof {
            assert(self@.subset_of(other@));
            vstd::seq_lib::seq_to_set_is_finite(self.order@);
            vstd::seq_lib::seq_to_set_is_finite(other.order@);
            vstd::set_lib::lemma_subset_equality(self@, other@);
        }
        true
    }

    pub fn len(&self) -> (res: usize)
        ensures
            res == self@.len(),
    {
        proof {
            use_type_invariant(self);
            self.order@.unique_seq_to_set();
        }
        self.order.len()
    }
}

/// The names of journal files.
pub const JOURNAL_FILE_PATTERN: &'static str = r"^Journal\.\d{12}\.\d{2}\.log$";

/// The positions, in order, of the names that are journal file names.
pub open spec fn journal_name_indices(names: Seq<Option<Seq<char>>>) -> Seq<usize>
    decreases names.len(),
{
    if names.len() == 0 {
        Seq::empty()
    } else {
        let rest = journal_name_indices(names.drop_last());
        match names.last() {
            Some(n) => if regex_matches(JOURNAL_FILE_PATTERN@, n) {
                rest.push((names.len() - 1) as usize)
            } else {
                rest
            },
            None => rest,
        }
    }
}

/// Which of the given file names (absent where a name is not valid Unicode) are
/// journal file names; their positions, in order. It fails only where the
/// journal file pattern does not compile.
pub fn journal_files(names: &Vec<Option<String>>) -> (res: Result<Vec<usize>, regex::Error>)
    ensures
        res is Ok <==> regex_compiles(JOURNAL_FILE_PATTERN@),
        res matches Ok(indices) ==> indices@ == journal_name_indices(
            names@.map_values(|n: Option<String>| match n {
                Some(s) => Some(s@),
                None => None,
            }),
        ),
{
    let ghost views = names@.map_values(|n: Option<String>| match n {
        Some(s) => Some(s@),
        None => None,
    });
    let pattern = match Pattern::compile(JOURNAL_FILE_PATTERN) {
        Ok(p) => p,
        Err(e) => return Err(e),
    };
    let mut res: Vec<usize> = Vec::new();
    let mut i: usize = 0;
    while i < names.len()
        invariant
            0 <= i <= names@.len(),
            views == names@.map_values(|n: Option<String>| match n {
                Some(s) => Some(s@),
                None => None,
            }),
            pattern.pattern() == JOURNAL_FILE_PATTERN@,
            res@ == journal_name_indices(views.take(i as int)),
        decreases names@.len() - i,
    {
        proof {
            assert(views.take(i + 1).drop_last() == views.take(i as int));
            assert(views.take(i + 1).last() == views[i as int]);
        }
        match &names[i] {
            Some(n) => {
                if pattern.is_match(n.as_str()) {
                    res.push(i);
                }
            },
            None => {},
        }
        i += 1;
    }
    proof {
        assert(views.take(names@.len() as int) == views);
    }
    Ok(res)
}

/// How many older journal files are read for docked markets once the position is known.
pub const VISITED_VIEW_FILES: usize = 50;

/// A journal event as the scan sees it; `L` is the position the event reports.
#[derive(Debug, Clone, Copy, PartialEq, Eq)]
pub enum JournalEvent<L> {
    Location(L),
    FsdJump(L),
    Docked(u64),
    Other,
}

/// Where a scan of the journal files stands.
#[derive(Debug, Clone, Copy, PartialEq, Eq, Structural)]
pub enum ScanPhase {
    /// Reading files, newest first, until one reports a position.
    Locating,
    /// Position found; reading at most this many more files for docked markets.
    Collecting(usize),
    /// No more files to read.
    Done,
}

/// Why the journal gave no position.
#[derive(Debug, Clone, Copy, PartialEq, Eq, Structural)]
pub enum JournalError {
    NoLocation,
}

/// The state of a scan, as the caller reads the journal files one by one.
pub struct ScanView<L> {
    pub unread: nat,
    pub phase: ScanPhase,
    pub location: Option<L>,
    pub visited: Set<u64>,
}

/// Scans journal files for the commander's position and docked markets. The caller
/// reads the file that `next_file` names, passes each event to `on_event`, calls
/// `end_file`, and repeats until `next_file` gives none; `finish` gives the result.
pub struct JournalScan<L> {
    unread: usize,
    phase: ScanPhase,
    location: Option<L>,
    visited: Visited,
}

/// The position an event reports, if any.
pub open spec fn event_position<L>(e: JournalEvent<L>) -> Option<L> {
    match e {
        JournalEvent::Location(l) => Some(l),
        JournalEvent::FsdJump(l) => Some(l),
        _ => None,
    }
}

/// The position reported last in a file.
pub open spec fn last_position<L>(events: Seq<JournalEvent<L>>) -> Option<L>
    decreases events.len(),
{
    if events.len() == 0 {
        None
    } else {
        match event_position(events.last()) {
            Some(l) => Some(l),
            None => last_position(events.drop_last()),
        }
    }
}

/// The markets docked at in a file.
pub open spec fn docked_in_file<L>(events: Seq<JournalEvent<L>>) -> Set<u64> {
    Set::new(|id: u64| exists|j: int| 0 <= j < events.len() && events[j] == JournalEvent::<L>::Docked(id))
}

/// The `i`-th file read: files are listed oldest first and read newest first.
pub open spec fn nth_newest<L>(files: Seq<Seq<JournalEvent<L>>>, i: int) -> Seq<JournalEvent<L>> {
    files[files.len() - 1 - i]
}

/// The markets docked at in the files read `lo` to `hi` (exclusive), newest first.
pub open spec fn docked_in_files<L>(files: Seq<Seq<JournalEvent<L>>>, lo: int, hi: int) -> Set<u64> {
    Set::new(|id: u64| exists|i: int| lo <= i < hi && #[trigger] docked_in_file(nth_newest(files, i)).contains(id))
}

/// `k` is the first file read, newest first, that reports a position.
pub open spec fn first_located<L>(files: Seq<Seq<JournalEvent<L>>>, k: int) -> bool {
    &&& 0 <= k < files.len()
    &&& last_position(nth_newest(files, k)) is Some
    &&& forall|i: int| 0 <= i < k ==> last_position(#[trigger] nth_newest(files, i)) is None
}

/// What a scan of `files` (oldest first) finds: the last position reported in the
/// newest file that reports one, and the markets docked at in that file, the newer
/// files, and up to fifty older ones. None when no file reports a position.
pub open spec fn scan_result<L>(files: Seq<Seq<JournalEvent<L>>>) -> Option<(L, Set<u64>)> {
    if exists|k: int| first_located(files, k) {
        let k = choose|k: int| first_located(files, k);
        let end = if k + 1 + VISITED_VIEW_FILES < files.len() {
            k + 1 + VISITED_VIEW_FILES
        } else {
            files.len() as int
        };
        Some((last_position(nth_newest(files, k)).unwrap(), docked_in_files(files, 0, end)))
    } else {
        None
    }
}

impl<L> JournalScan<L> {
    pub closed spec fn view(&self) -> ScanView<L> {
        ScanView {
            unread: self.unread as nat,
            phase: self.phase,
            location: self.location,
            visited: self.visited@,
        }
    }

    /// A scan of `file_count` journal files.
    pub fn new(file_count: usize) -> (res: JournalScan<L>)
        ensures
            res.view() == (ScanView::<L> {
                unread: file_count as nat,
                phase: ScanPhase::Locating,
                location: None,
                visited: Set::empty(),
            }),
    {
        JournalScan { unread: file_count, phase: ScanPhase::Locating, location: None, visited: Visited::new() }
    }

    /// The index (in the oldest-first list) of the next file to read, if any. Files
    /// are taken from the newest down; once the position is known, at most fifty more.
    pub fn next_file(&mut self) -> (res: Option<usize>)
        ensures
            final(self).view().location == old(self).view().location,
            final(self).view().visited == old(self).view().visited,
            match old(self).view().phase {
                ScanPhase::Done => res is None && final(self).view() == old(self).view(),
                ScanPhase::Locating => if old(self).view().unread == 0 {
                    res is None && final(self).view().phase == ScanPhase::Done
                        && final(self).view().unread == 0
                } else {
                    res == Some((old(self).view().unread - 1) as usize)
                        && final(self).view().unread == old(self).view().unread - 1
                        && final(self).view().phase == ScanPhase::Locating
                },
                ScanPhase::Collecting(left) => if old(self).view().unread == 0 {
                    res is None && final(self).view().phase == ScanPhase::Done
                        && final(self).view().unread == 0
                } else if left == 0 {
                    res is None && final(self).view().phase == ScanPhase::Done
                        && final(self).view().unread == old(self).view().unread - 1
                } else {
                    res == Some((old(self).view().unread - 1) as usize)
                        && final(self).view().unread == old(self).view().unread - 1
                        && final(self).view().phase == ScanPhase::Collecting((left - 1) as usize)
                },
            },
    {
        match self.phase {
            ScanPhase::Done => None,
            ScanPhase::Locating => {
                if self.unread == 0 {
                    self.phase = ScanPhase::Done;
                    None
                } else {
                    self.unread = self.unread - 1;
                    Some(self.unread)
                }
            },
            ScanPhase::Collecting(left) => {
                if self.unread == 0 {
                    self.phase = ScanPhase::Done;
                    None
                } else {
                    self.unread = self.unread - 1;
                    if left == 0 {
                        self.phase = ScanPhase::Done;
                        None
                    } else {
                        self.phase = ScanPhase::Collecting(left - 1);
                        Some(self.unread)
                    }
                }
            },
        }
    }

    /// Takes in one event of the file being read. While the position is sought, a
    /// position report replaces the position; in every phase a docking is recorded.
    pub fn on_event(&mut self, event: JournalEvent<L>)
        ensures
            final(self).view().unread == old(self).view().unread,
            final(self).view().phase == old(self).view().phase,
            final(self).view().location == (match (old(self).view().phase, event_position(event)) {
                (ScanPhase::Locating, Some(l)) => Some(l),
                _ => old(self).view().location,
            }),
            final(self).view().visited == (match event {
                JournalEvent::Docked(id) => if old(self).view().phase is Done {
                    old(self).view().visited
                } else {
                    old(self).view().visited.insert(id)
                },
                _ => old(self).view().visited,
            }),
    {
        match event {
            JournalEvent::Location(loc) => {
                if self.phase == ScanPhase::Locating {
                    self.location = Some(loc);
                }
            },
            JournalEvent::FsdJump(loc) => {
                if self.phase == ScanPhase::Locating {
                    self.location = Some(loc);
                }
            },
            JournalEvent::Docked(id) => {
                if self.phase != ScanPhase::Done {
                    self.visited.insert(id);
                }
            },
            JournalEvent::Other => {},
        }
    }

    /// Closes the file being read: once a position is known, the scan goes on to
    /// collect docked markets from up to fifty older files.
    pub fn end_file(&mut self)
        ensures
            final(self).view().unread == old(self).view().unread,
            final(self).view().location == old(self).view().location,
            final(self).view().visited == old(self).view().visited,
            final(self).view().phase == (if old(self).view().phase is Locating && old(
                self,
            ).view().location is Some {
                ScanPhase::Collecting(VISITED_VIEW_FILES)
            } else {
                old(self).view().phase
            }),
    {
        if self.phase == ScanPhase::Locating && self.location.is_some() {
            self.phase = ScanPhase::Collecting(VISITED_VIEW_FILES);
        }
    }

    /// The position and the docked markets, or an error when no position was found.
    pub fn finish(self) -> (res: Result<(L, Visited), JournalError>)
        ensures
            match self.view().location {
                Some(l) => res matches Ok((loc, v)) && loc == l && v@ == self.view().visited,
                None => res == Err::<(L, Visited), JournalError>(JournalError::NoLocation),
            },
    {
        match self.location {
            Some(loc) => Ok((loc, self.visited)),
            None => Err(JournalError::NoLocation),
        }
    }
}

/// Adding one more event to a prefix of a file adds its docking, if it is one.
proof fn lemma_docked_prefix_step<L>(events: Seq<JournalEvent<L>>, j: int)
    requires
        0 <= j < events.len(),
    ensures
        docked_in_file(events.take(j + 1)) == (match events[j] {
            JournalEvent::Docked(id) => docked_in_file(events.take(j)).insert(id),
            _ => docked_in_file(events.take(j)),
        }),
{
    let a = events.take(j);
    let b = events.take(j + 1);
    assert forall|id: u64| docked_in_file(b).contains(id) == (match events[j] {
        JournalEvent::Docked(d) => docked_in_file(a).insert(d),
        _ => docked_in_file(a),
    }).contains(id) by {
        if docked_in_file(b).contains(id) {
            let w = choose|w: int| 0 <= w < b.len() && b[w] == JournalEvent::<L>::Docked(id);
            if w < j {
                assert(a[w] == b[w]);
            }
        }
        if docked_in_file(a).contains(id) {
            let w = choose|w: int| 0 <= w < a.len() && a[w] == JournalEvent::<L>::Docked(id);
            assert(b[w] == a[w]);
        }
        if events[j] == JournalEvent::<L>::Docked(id) {
            assert(b[j] == events[j]);
        }
    }
    assert(docked_in_file(b) =~= (match events[j] {
        JournalEvent::Docked(d) => docked_in_file(a).insert(d),
        _ => docked_in_file(a),
    }));
}

/// Adding one more event to a prefix of a file: a position report becomes the last one.
proof fn lemma_last_position_prefix_step<L>(events: Seq<JournalEvent<L>>, j: int)
    requires
        0 <= j < events.len(),
    ensures
        last_position(events.take(j + 1)) == (match event_position(events[j]) {
            Some(l) => Some(l),
            None => last_position(events.take(j)),
        }),
{
    assert(events.take(j + 1).drop_last() == events.take(j));
    assert(events.take(j + 1).last() == events[j]);
}

/// Reading one more file adds its dockings.
proof fn lemma_docked_files_step<L>(files: Seq<Seq<JournalEvent<L>>>, hi: int)
    requires
        0 <= hi,
    ensures
        docked_in_files(files, 0, hi + 1) == docked_in_files(files, 0, hi).union(
            docked_in_file(nth_newest(files, hi)),
        ),
{
    assert forall|id: u64| #[trigger] docked_in_files(files, 0, hi + 1).contains(id) == docked_in_files(
        files,
        0,
        hi,
    ).union(docked_in_file(nth_newest(files, hi))).contains(id) by {
        if docked_in_files(files, 0, hi + 1).contains(id) {
            let i = choose|i: int| 0 <= i < hi + 1 && #[trigger] docked_in_file(nth_newest(files, i)).contains(id);
            if i < hi {
                assert(docked_in_files(files, 0, hi).contains(id));
            }
        }
        if docked_in_files(files, 0, hi).contains(id) {
            let i = choose|i: int| 0 <= i < hi && #[trigger] docked_in_file(nth_newest(files, i)).contains(id);
            assert(0 <= i < hi + 1);
        }
    }
    assert(docked_in_files(files, 0, hi + 1) =~= docked_in_files(files, 0, hi).union(
        docked_in_file(nth_newest(files, hi)),
    ));
}

/// The first file that reports a position is unique.
proof fn lemma_first_located_unique<L>(files: Seq<Seq<JournalEvent<L>>>, a: int, b: int)
    requires
        first_located(files, a),
        first_located(files, b),
    ensures
        a == b,
{
    if a < b {
        assert(last_position(nth_newest(files, a)) is None);
    } else if b < a {
        assert(last_position(nth_newest(files, b)) is None);
    }
}

/// Scans journal files held in memory, oldest first, driving a `JournalScan` the way
/// a caller reading them from disk does.
pub fn scan_journals<L: Copy>(files: &Vec<Vec<JournalEvent<L>>>) -> (res: Result<(L, Visited), JournalError>)
    ensures
        match scan_result(files@.map_values(|f: Vec<JournalEvent<L>>| f@)) {
            Some((l, v)) => res matches Ok((loc, visited)) && loc == l && visited@ == v,
            None => res == Err::<(L, Visited), JournalError>(JournalError::NoLocation),
        },
{
    let ghost fs = files@.map_values(|f: Vec<JournalEvent<L>>| f@);
    let n = files.len();
    let mut scan: JournalScan<L> = JournalScan::new(n);
    let ghost mut read: int = 0;
    let ghost mut found: int = 0;
    proof {
        assert(docked_in_files(fs, 0, 0) =~= Set::<u64>::empty());
    }
    loop
        invariant_except_break
            fs == files@.map_values(|f: Vec<JournalEvent<L>>| f@),
            n == fs.len(),
            n == files@.len(),
            0 <= read <= n,
            scan.view().visited == docked_in_files(fs, 0, read),
            !(scan.view().phase is Done),
            scan.view().unread == n - read,
            scan.view().phase is Locating ==> scan.view().location is None && forall|i: int|
                0 <= i < read ==> last_position(#[trigger] nth_newest(fs, i)) is None,
            scan.view().phase matches ScanPhase::Collecting(left) ==> {
                &&& 0 <= found < read
                &&& first_located(fs, found)
                &&& scan.view().location == last_position(nth_newest(fs, found))
                &&& left + (read - found - 1) == VISITED_VIEW_FILES
            },
        ensures
            fs == files@.map_values(|f: Vec<JournalEvent<L>>| f@),
            scan.view().location matches Some(l) ==> {
                &&& first_located(fs, found)
                &&& l == last_position(nth_newest(fs, found)).unwrap()
                &&& scan.view().visited == docked_in_files(
                    fs,
                    0,
                    if found + 1 + VISITED_VIEW_FILES < fs.len() {
                        found + 1 + VISITED_VIEW_FILES
                    } else {
                        fs.len() as int
                    },
                )
            },
            scan.view().location is None ==> forall|i: int| 0 <= i < fs.len() ==> last_position(#[trigger] nth_newest(fs, i)) is None,
        decreases scan.view().unread,
    {
        let ghost before = scan.view();
        match scan.next_file() {
            None => {
                break;
            },
            Some(idx) => {
                let file = &files[idx];
                let ghost f = fs[idx as int];
                assert(f == nth_newest(fs, read));
                assert(file@ == f);
                let m = file.len();
                let mut j: usize = 0;
                while j < m
                    invariant
                        m == f.len(),
                        file@ == f,
                        0 <= j <= m,
                        scan.view().unread == before.unread - 1,
                        scan.view().phase == (if before.phase is Locating {
                            ScanPhase::Locating
                        } else {
                            ScanPhase::Collecting((before.phase->Collecting_0 - 1) as usize)
                        }),
                        before.phase is Locating ==> before.location is None,
                        !(before.phase is Done),
                        before.phase is Collecting ==> before.phase->Collecting_0 > 0,
                        scan.view().visited == before.visited.union(docked_in_file(f.take(j as int))),
                        scan.view().location == (if before.phase is Locating {
                            last_position(f.take(j as int))
                        } else {
                            before.location
                        }),
                    decreases m - j,
                {
                    proof {
                        lemma_docked_prefix_step(f, j as int);
                        lemma_last_position_prefix_step(f, j as int);
                    }
                    let event = file[j];
                    scan.on_event(event);
                    proof {
                        assert(scan.view().visited =~= before.visited.union(docked_in_file(f.take(j + 1))));
                    }
                    j += 1;
                }
                proof {
                    assert(f.take(m as int) == f);
                    lemma_docked_files_step(fs, read);
                }
                let ghost was_locating = scan.view().phase is Locating;
                scan.end_file();
                proof {
                    if was_locating && scan.view().location is Some {
                        found = read;
                        assert forall|i: int| 0 <= i < found implies last_position(#[trigger] nth_newest(fs, i)) is None by {}
                    }
                    read = read + 1;
                    assert(scan.view().visited =~= docked_in_files(fs, 0, read));
                }
            },
        }
    }
    proof {
        if let Some(l) = scan.view().location {
            let k = choose|k: int| first_located(fs, k);
            lemma_first_located_unique(fs, k, found);
        } else {
            assert(!exists|k: int| first_located(fs, k));
        }
    }
    scan.finish()
}

} // verus!
