use vstd::prelude::*;

verus! {

/// How the tool runs: list once, or keep the list up to date while the commander flies.
#[derive(Debug, Clone, Copy, PartialEq, Eq, Structural)]
pub enum Mode {
    Oneshot,
    Update,
}

/// In update mode, whether a new position report calls for a new search: unless the
/// location and the docked markets are unchanged and the last search is recent.
pub fn needs_refresh(same_location: bool, same_visited: bool, recently_updated: bool) -> (res: bool)
    ensures
        res == !(same_location && same_visited && recently_updated),
{
    !(same_location && same_visited && recently_updated)
}

/// After this many milliseconds the list is searched and printed again, even
/// where nothing changed.
pub const FORCE_UPDATE_MILLIS: u64 = 60_000;

/// What the update loop does on a position report.
#[derive(Debug, Clone, Copy, PartialEq, Eq, Structural)]
pub enum Action {
    /// Search and print the list; the first report.
    Print,
    /// Clear what was printed, then search and print again.
    ClearAndPrint,
    /// Leave the list as it is.
    Skip,
}

/// A position report: whether the location and the docked markets are those of
/// the list last printed, and when it came, in milliseconds of a steady clock.
#[derive(Debug, Clone, Copy)]
pub struct Report {
    pub same_location: bool,
    pub same_visited: bool,
    pub now: u64,
}

/// What the loop does on `r`, given when it last printed, if it has.
pub open spec fn next_action(last_print: Option<u64>, r: Report) -> Action {
    match last_print {
        None => Action::Print,
        Some(t) => if !(r.same_location && r.same_visited && r.now - t < FORCE_UPDATE_MILLIS) {
            Action::ClearAndPrint
        } else {
            Action::Skip
        },
    }
}

/// When the loop last printed, once it has handled `r`.
pub open spec fn next_last_print(last_print: Option<u64>, r: Report) -> Option<u64> {
    if next_action(last_print, r) is Skip {
        last_print
    } else {
        Some(r.now)
    }
}

/// When the loop last printed, once it has handled the reports in order.
pub open spec fn last_print_after(reports: Seq<Report>) -> Option<u64>
    decreases reports.len(),
{
    if reports.len() == 0 {
        None
    } else {
        next_last_print(last_print_after(reports.drop_last()), reports.last())
    }
}

/// What the loop does on the `i`-th of the reports.
pub open spec fn action_at(reports: Seq<Report>, i: int) -> Action {
    next_action(last_print_after(reports.take(i)), reports[i])
}

/// The loop that keeps the list up to date.
pub struct UpdateLoop {
    last_print: Option<u64>,
}

impl UpdateLoop {
    /// When the loop last printed, if it has.
    pub closed spec fn last_print(self) -> Option<u64> {
        self.last_print
    }

    pub fn new() -> (res: UpdateLoop)
        ensures
            res.last_print() is None,
    {
        UpdateLoop { last_print: None }
    }

    /// Decides what to do on a report, and notes the time when it prints.
    pub fn observe(&mut self, r: Report) -> (res: Action)
        ensures
            res == next_action(old(self).last_print(), r),
            final(self).last_print() == next_last_print(old(self).last_print(), r),
    {
        match self.last_print {
            None => {
                self.last_print = Some(r.now);
                Action::Print
            },
            Some(t) => {
                let recent = if r.now >= t {
                    r.now - t < FORCE_UPDATE_MILLIS
                } else {
                    true
                };
                if needs_refresh(r.same_location, r.same_visited, recent) {
                    self.last_print = Some(r.now);
                    Action::ClearAndPrint
                } else {
                    Action::Skip
                }
            },
        }
    }
}

proof fn lemma_last_print_step(reports: Seq<Report>, i: int)
    requires
        0 <= i < reports.len(),
    ensures
        last_print_after(reports.take(i + 1)) == next_last_print(last_print_after(reports.take(i)), reports[i]),
{
    assert(reports.take(i + 1).drop_last() == reports.take(i));
    assert(reports.take(i + 1).last() == reports[i]);
}

proof fn lemma_printed_once(reports: Seq<Report>, i: int)
    requires
        0 < i <= reports.len(),
    ensures
        last_print_after(reports.take(i)) is Some,
    decreases i,
{
    lemma_last_print_step(reports, i - 1);
    if i > 1 {
        lemma_printed_once(reports, i - 1);
    } else {
        assert(reports.take(0) == Seq::<Report>::empty());
    }
}

/// The `j`-th report is the last before the `i`-th on which the loop printed.
pub open spec fn last_printed_before(reports: Seq<Report>, j: int, i: int) -> bool {
    &&& 0 <= j < i
    &&& !(action_at(reports, j) is Skip)
    &&& forall|k: int| j < k < i ==> #[trigger] action_at(reports, k) is Skip
}

proof fn lemma_last_print_is_latest(reports: Seq<Report>, j: int, i: int)
    requires
        i <= reports.len(),
        last_printed_before(reports, j, i),
    ensures
        last_print_after(reports.take(i)) == Some(reports[j].now),
    decreases i - j,
{
    lemma_last_print_step(reports, i - 1);
    if i - 1 > j {
        assert(action_at(reports, i - 1) is Skip);
        lemma_last_print_is_latest(reports, j, i - 1);
    }
}

/// The update loop prints on the first report and never clears before it; on
/// every later report it clears and prints again exactly when the location or
/// the docked markets differ from those of the last print, or a minute or more
/// has passed since that print.
pub proof fn lemma_update_loop_run(reports: Seq<Report>)
    ensures
        reports.len() > 0 ==> action_at(reports, 0) is Print,
        forall|i: int| 0 < i < reports.len() ==> !(#[trigger] action_at(reports, i) is Print),
        forall|j: int, i: int|
            i < reports.len() && #[trigger] last_printed_before(reports, j, i) ==> (action_at(reports, i)
                is ClearAndPrint <==> !(reports[i].same_location && reports[i].same_visited
                && reports[i].now - reports[j].now < FORCE_UPDATE_MILLIS)),
{
    if reports.len() > 0 {
        assert(reports.take(0) == Seq::<Report>::empty());
    }
    assert forall|i: int| 0 < i < reports.len() implies !(#[trigger] action_at(reports, i) is Print) by {
        lemma_printed_once(reports, i);
    }
    assert forall|j: int, i: int|
        i < reports.len() && #[trigger] last_printed_before(reports, j, i) implies (action_at(reports, i)
            is ClearAndPrint <==> !(reports[i].same_location && reports[i].same_visited
            && reports[i].now - reports[j].now < FORCE_UPDATE_MILLIS)) by {
        lemma_last_print_is_latest(reports, j, i);
    }
}

} // verus!
