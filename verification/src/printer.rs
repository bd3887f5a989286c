use vstd::prelude::*;

use crate::searcher::{DaysView, Record};

verus! {

/// Prints the list of stations as plain text.
#[derive(Debug, Default, Clone, Copy)]
pub struct TextPrinter {}

impl TextPrinter {
    pub fn new() -> (res: TextPrinter)
        ensures
            res == (TextPrinter {}),
    {
        TextPrinter {}
    }
}

/// `mark` where the age is marked outdated, a space otherwise.
pub open spec fn flag(d: DaysView, mark: char) -> char {
    if d.mark is Some {
        mark
    } else {
        ' '
    }
}

/// The four flags of a listed station: `I`, `M`, `S`, `O` for outdated
/// information, market, shipyard and outfitting, spaces for the others.
pub fn outdated_marks<'a, C, D>(r: &Record<'a, C, D>) -> (res: String)
    ensures
        res@ == seq![
            flag(r@.information, 'I'),
            flag(r@.market, 'M'),
            flag(r@.shipyard, 'S'),
            flag(r@.outfitting, 'O'),
        ],
{
    proof {
        reveal_strlit("I");
        reveal_strlit("M");
        reveal_strlit("S");
        reveal_strlit("O");
        reveal_strlit(" ");
    }
    let mut marks = String::new();
    marks.append(if r.information_days.is_outdated() { "I" } else { " " });
    marks.append(if r.market_days.is_outdated() { "M" } else { " " });
    marks.append(if r.shipyard_days.is_outdated() { "S" } else { " " });
    marks.append(if r.outfitting_days.is_outdated() { "O" } else { " " });
    assert(marks@ =~= seq![
        flag(r@.information, 'I'),
        flag(r@.market, 'M'),
        flag(r@.shipyard, 'S'),
        flag(r@.outfitting, 'O'),
    ]);
    marks
}

/// The mark of a station the commander docked at.
pub fn visited_mark<'a, C, D>(r: &Record<'a, C, D>) -> (res: &'static str)
    ensures
        res@ == (if r.visited {
            "*"@
        } else {
            " "@
        }),
{
    if r.visited {
        "*"
    } else {
        " "
    }
}

} // verus!
