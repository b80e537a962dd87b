use vstd::prelude::*;

use crate::models::Draw;

verus! {

/// Mathematical model of the assignment ledger: the recorded draws in
/// insertion order, and the row id the store will hand out next.
pub struct LedgerView {
    pub draws: Seq<Draw>,
    pub next_id: i64,
}

/// The first draw at or after position `i` whose giver and period match,
/// if any.
pub open spec fn first_assignment_from(draws: Seq<Draw>, giver: i64, year: i32, i: int) -> Option<
    Draw,
>
    decreases draws.len() - i,
{
    if i < 0 || i >= draws.len() {
        None
    } else if draws[i].giver_id == giver && draws[i].year == year {
        Some(draws[i])
    } else {
        first_assignment_from(draws, giver, year, i + 1)
    }
}

/// The first draw at or after position `i` whose giver is `id`, in any
/// period, if any.
pub open spec fn first_draw_by_giver_from(draws: Seq<Draw>, id: i64, i: int) -> Option<Draw>
    decreases draws.len() - i,
{
    if i < 0 || i >= draws.len() {
        None
    } else if draws[i].giver_id == id {
        Some(draws[i])
    } else {
        first_draw_by_giver_from(draws, id, i + 1)
    }
}

/// Whether some draw of the given period already names `id` as its receiver.
pub open spec fn is_receiver_for(draws: Seq<Draw>, id: i64, year: i32) -> bool {
    exists|k: int|
        0 <= k < draws.len() && (#[trigger] draws[k]).receiver_id == id && draws[k].year == year
}

/// Well-formedness of the ledger: row ids are unique and below `next_id`,
/// no giver and no receiver appears in two draws of the same period, and
/// nobody gives to themselves.
pub open spec fn ledger_wf(l: LedgerView) -> bool {
    &&& 1 <= l.next_id
    &&& forall|i: int| 0 <= i < l.draws.len() ==> 1 <= (#[trigger] l.draws[i]).id < l.next_id
    &&& forall|i: int|
        0 <= i < l.draws.len() ==> (#[trigger] l.draws[i]).giver_id != l.draws[i].receiver_id
    &&& forall|i: int, j: int|
        #![trigger l.draws[i], l.draws[j]]
        0 <= i < j < l.draws.len() ==> {
            &&& l.draws[i].id != l.draws[j].id
            &&& !(l.draws[i].giver_id == l.draws[j].giver_id && l.draws[i].year == l.draws[j].year)
            &&& !(l.draws[i].receiver_id == l.draws[j].receiver_id && l.draws[i].year
                == l.draws[j].year)
        }
}

/// The durable ledger of assignments.
pub struct Ledger {
    pub draws: Vec<Draw>,
    pub next_id: i64,
}

impl View for Ledger {
    type V = LedgerView;

    open spec fn view(&self) -> LedgerView {
        LedgerView { draws: self.draws@, next_id: self.next_id }
    }
}

impl Ledger {
    pub open spec fn wf(&self) -> bool {
        ledger_wf(self@)
    }

    /// An empty ledger whose first row will get id 1.
    pub fn new() -> (r: Ledger)
        ensures
            r@.draws == Seq::<Draw>::empty(),
            r@.next_id == 1,
            r.wf(),
    {
        Ledger { draws: Vec::new(), next_id: 1 }
    }

    /// All recorded draws, in insertion order.
    pub fn rows(&self) -> (r: &Vec<Draw>)
        ensures
            r@ == self@.draws,
    {
        &self.draws
    }

    /// The assignment already recorded for `(giver, year)`, if any.
    pub fn current_assignment(&self, giver: i64, year: i32) -> (r: Option<Draw>)
        ensures
            r == first_assignment_from(self@.draws, giver, year, 0),
    {
        let mut i: usize = 0;
        while i < self.draws.len()
            invariant
                0 <= i <= self.draws.len(),
                first_assignment_from(self@.draws, giver, year, 0) == first_assignment_from(
                    self@.draws,
                    giver,
                    year,
                    i as int,
                ),
            decreases self.draws.len() - i,
        {
            let d = &self.draws[i];
            if d.giver_id == giver && d.year == year {
                return Some(d.clone());
            }
            i = i + 1;
        }
        None
    }

    /// The first draw, in insertion order, whose giver is `id`, whatever the
    /// period.
    pub fn first_draw_by_giver(&self, id: i64) -> (r: Option<Draw>)
        ensures
            r == first_draw_by_giver_from(self@.draws, id, 0),
    {
        let mut i: usize = 0;
        while i < self.draws.len()
            invariant
                0 <= i <= self.draws.len(),
                first_draw_by_giver_from(self@.draws, id, 0) == first_draw_by_giver_from(
                    self@.draws,
                    id,
                    i as int,
                ),
            decreases self.draws.len() - i,
        {
            let d = &self.draws[i];
            if d.giver_id == id {
                return Some(d.clone());
            }
            i = i + 1;
        }
        None
    }

    /// Whether `id` is already somebody's receiver in `year`.
    pub fn is_receiver(&self, id: i64, year: i32) -> (r: bool)
        ensures
            r == is_receiver_for(self@.draws, id, year),
    {
        let mut i: usize = 0;
        while i < self.draws.len()
            invariant
                0 <= i <= self.draws.len(),
                forall|j: int|
                    0 <= j < i ==> !((#[trigger] self@.draws[j]).receiver_id == id
                        && self@.draws[j].year == year),
            decreases self.draws.len() - i,
        {
            let d = &self.draws[i];
            if d.receiver_id == id && d.year == year {
                assert(self@.draws[i as int].receiver_id == id && self@.draws[i as int].year
                    == year);
                return true;
            }
            i = i + 1;
        }
        false
    }
}

} // verus!
