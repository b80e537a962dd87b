use vstd::prelude::*;

use crate::engine::DrawError;
use crate::engine::candidate_seq;
use crate::engine::lemma_first_assignment_push;
use crate::engine::lemma_request_preserves_wf;
use crate::engine::spec_request;
use crate::ledger::LedgerView;
use crate::ledger::first_assignment_from;
use crate::ledger::ledger_wf;
use crate::models::AccessCode;
use crate::models::Draw;

verus! {

/// A found assignment matches the giver and the period and lies in the
/// ledger.
pub proof fn lemma_first_assignment_some(draws: Seq<Draw>, giver: i64, year: i32, i: int)
    requires
        0 <= i,
        first_assignment_from(draws, giver, year, i) is Some,
    ensures
        ({
            let d = first_assignment_from(draws, giver, year, i).unwrap();
            &&& d.giver_id == giver
            &&& d.year == year
            &&& exists|j: int| i <= j < draws.len() && (#[trigger] draws[j]) == d
        }),
    decreases draws.len() - i,
{
    if i < draws.len() && !(draws[i].giver_id == giver && draws[i].year == year) {
        lemma_first_assignment_some(draws, giver, year, i + 1);
    }
}

/// Invariant law: in a well-formed ledger, within any one period no two
/// draws share a giver, no two draws share a receiver, and no draw names its
/// giver as its receiver.
pub proof fn lemma_assignments_form_partial_derangement(l: LedgerView, year: i32)
    requires
        ledger_wf(l),
    ensures
        forall|i: int, j: int|
            #![trigger l.draws[i], l.draws[j]]
            0 <= i < l.draws.len() && 0 <= j < l.draws.len() && i != j && l.draws[i].year == year
                && l.draws[j].year == year ==> l.draws[i].giver_id != l.draws[j].giver_id
                && l.draws[i].receiver_id != l.draws[j].receiver_id,
        forall|i: int|
            0 <= i < l.draws.len() ==> (#[trigger] l.draws[i]).giver_id != l.draws[i].receiver_id,
{
    assert forall|i: int, j: int|
        #![trigger l.draws[i], l.draws[j]]
        0 <= i < l.draws.len() && 0 <= j < l.draws.len() && i != j && l.draws[i].year == year
            && l.draws[j].year == year implies l.draws[i].giver_id != l.draws[j].giver_id
        && l.draws[i].receiver_id != l.draws[j].receiver_id by {
        if i < j {
            assert(l.draws[i].id != l.draws[j].id);
        } else {
            assert(l.draws[j].id != l.draws[i].id);
        }
    };
}

/// Idempotence law: a second draw request for the same giver and period —
/// with any randomness and any timestamp, and no intervening state change —
/// returns the same outcome as the first and leaves the ledger exactly as
/// the first left it; and when the first request succeeded, a row for the
/// pair stands in the ledger (by the invariant, exactly one).
pub proof fn lemma_request_idempotent(
    codes: Seq<AccessCode>,
    l0: LedgerView,
    giver: i64,
    year: i32,
    e1: u64,
    t1: String,
    e2: u64,
    t2: String,
)
    requires
        ledger_wf(l0),
        l0.next_id < i64::MAX,
    ensures
        ({
            let (l1, r1) = spec_request(codes, l0, giver, year, e1, t1);
            let (l2, r2) = spec_request(codes, l1, giver, year, e2, t2);
            &&& ledger_wf(l1)
            &&& l2 == l1
            &&& r2 == r1
            &&& (r1 is Ok ==> exists|i: int|
                0 <= i < l1.draws.len() && (#[trigger] l1.draws[i]).giver_id == giver
                    && l1.draws[i].year == year)
        }),
{
    lemma_request_preserves_wf(codes, l0, giver, year, e1, t1);
    let (l1, r1) = spec_request(codes, l0, giver, year, e1, t1);
    match first_assignment_from(l0.draws, giver, year, 0) {
        Some(d) => {
            lemma_first_assignment_some(l0.draws, giver, year, 0);
        },
        None => {
            let cands = candidate_seq(codes, l0.draws, giver, year);
            if cands.len() > 0 {
                let pick = cands[e1 as int % cands.len() as int];
                let d = Draw {
                    id: l0.next_id,
                    giver_id: giver,
                    receiver_id: pick.id,
                    year: year,
                    created_at: t1,
                };
                lemma_first_assignment_push(l0.draws, d, giver, year, 0);
                assert(l1.draws == l0.draws.push(d));
                assert(l1.draws[l1.draws.len() - 1] == d);
            }
        },
    }
}

/// The ledger left behind after serving a batch of draw requests in order,
/// one per entry of `reqs` — giver, entropy, timestamp — all in period
/// `year`.
pub open spec fn run_requests(
    codes: Seq<AccessCode>,
    l: LedgerView,
    reqs: Seq<(i64, u64, String)>,
    year: i32,
) -> LedgerView
    decreases reqs.len(),
{
    if reqs.len() == 0 {
        l
    } else {
        let (l1, r1) = spec_request(codes, l, reqs[0].0, year, reqs[0].1, reqs[0].2);
        run_requests(codes, l1, reqs.drop_first(), year)
    }
}

/// Concurrency law, batch form: the engine serves requests one atomic unit
/// at a time, so any interleaving of concurrent calls is some batch order.
/// Whatever that order, the invariant holds after every batch — so no giver
/// and no receiver is ever recorded twice within a period — and the ledger
/// grows by at most one row per request.
pub proof fn lemma_batch_requests_preserve_invariant(
    codes: Seq<AccessCode>,
    l0: LedgerView,
    reqs: Seq<(i64, u64, String)>,
    year: i32,
)
    requires
        ledger_wf(l0),
        l0.next_id + reqs.len() <= i64::MAX,
    ensures
        ({
            let l1 = run_requests(codes, l0, reqs, year);
            &&& ledger_wf(l1)
            &&& l0.draws.len() <= l1.draws.len() <= l0.draws.len() + reqs.len()
            &&& l0.next_id <= l1.next_id <= l0.next_id + reqs.len()
        }),
    decreases reqs.len(),
{
    if reqs.len() > 0 {
        lemma_request_preserves_wf(codes, l0, reqs[0].0, year, reqs[0].1, reqs[0].2);
        let (l1, r1) = spec_request(codes, l0, reqs[0].0, year, reqs[0].1, reqs[0].2);
        lemma_batch_requests_preserve_invariant(codes, l1, reqs.drop_first(), year);
    }
}

/// Concurrency law: the candidate-selection-and-insert sequence runs as one
/// atomic unit against the ledger, so any interleaving of requests is some
/// sequence of single requests. A request by a giver with no assignment yet
/// for the period either appends exactly one row — whose giver is that
/// giver — or fails with `NoCandidatesAvailable` leaving the ledger
/// unchanged; and the invariant, in particular that no receiver is assigned
/// twice within the period, holds after every such step.
pub proof fn lemma_fresh_request_adds_one_row(
    codes: Seq<AccessCode>,
    l0: LedgerView,
    giver: i64,
    year: i32,
    entropy: u64,
    created_at: String,
)
    requires
        ledger_wf(l0),
        l0.next_id < i64::MAX,
        first_assignment_from(l0.draws, giver, year, 0) is None,
    ensures
        ({
            let (l1, r1) = spec_request(codes, l0, giver, year, entropy, created_at);
            &&& ledger_wf(l1)
            &&& (r1 is Ok ==> {
                &&& l1.draws =~= l0.draws.push(r1.unwrap())
                &&& l1.draws.len() == l0.draws.len() + 1
                &&& r1.unwrap().giver_id == giver
                &&& r1.unwrap().year == year
            })
            &&& (r1 is Err ==> l1 == l0 && r1 == Err::<Draw, DrawError>(
                DrawError::NoCandidatesAvailable,
            ))
        }),
{
    lemma_request_preserves_wf(codes, l0, giver, year, entropy, created_at);
}

} // verus!
