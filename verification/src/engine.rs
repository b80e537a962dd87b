use vstd::prelude::*;

use crate::clock::current_period;
use crate::clock::now_timestamp;
use crate::directory::Directory;
use crate::directory::first_with_id_from;
use crate::directory::spec_is_active;
use crate::ledger::Ledger;
use crate::ledger::LedgerView;
use crate::ledger::first_assignment_from;
use crate::ledger::is_receiver_for;
use crate::ledger::ledger_wf;
use crate::models::AccessCode;
use crate::models::Draw;
use crate::models::DrawRequest;
use crate::models::DrawResult;
use crate::session::Session;

verus! {

/// Failures of the draw engine.
#[derive(Debug, Clone, Copy, PartialEq, Eq, Structural)]
pub enum DrawError {
    /// The caller is not authenticated as the requesting giver, or that
    /// giver is no longer an active participant.
    NotAuthenticated,
    /// No active, non-self, not-yet-receiving participant remains for the
    /// period: a terminal outcome, not a transient error.
    NoCandidatesAvailable,
    /// Concurrent requests kept conflicting in the store; safe to retry
    /// later. Raised by the storage adapter, never by the in-memory engine,
    /// whose requests are served one at a time.
    Conflict,
    /// The underlying store is unreachable. Raised by the storage adapter.
    StorageUnavailable,
}

/// Whether `c` may still be drawn by `giver` as its receiver in `year`:
/// active, not the giver itself, and not yet somebody's receiver for that
/// period.
pub open spec fn is_candidate(c: AccessCode, draws: Seq<Draw>, giver: i64, year: i32) -> bool {
    c.active && c.id != giver && !is_receiver_for(draws, c.id, year)
}

/// The eligible receivers for `(giver, year)`, in registry order.
pub open spec fn candidate_seq(
    codes: Seq<AccessCode>,
    draws: Seq<Draw>,
    giver: i64,
    year: i32,
) -> Seq<AccessCode>
    decreases codes.len(),
{
    if codes.len() == 0 {
        Seq::empty()
    } else {
        let rest = candidate_seq(codes.drop_last(), draws, giver, year);
        if is_candidate(codes.last(), draws, giver, year) {
            rest.push(codes.last())
        } else {
            rest
        }
    }
}

/// What one draw request does to the ledger and what it returns: the
/// existing assignment and an unchanged ledger when `(giver, year)` already
/// has one; `NoCandidatesAvailable` and an unchanged ledger when no eligible
/// receiver remains; otherwise a new row, whose receiver is the candidate
/// picked by `entropy`, appended to the ledger.
pub open spec fn spec_request(
    codes: Seq<AccessCode>,
    l: LedgerView,
    giver: i64,
    year: i32,
    entropy: u64,
    created_at: String,
) -> (LedgerView, Result<Draw, DrawError>) {
    match first_assignment_from(l.draws, giver, year, 0) {
        Some(d) => (l, Ok(d)),
        None => {
            let cands = candidate_seq(codes, l.draws, giver, year);
            if cands.len() == 0 {
                (l, Err(DrawError::NoCandidatesAvailable))
            } else {
                let pick = cands[entropy as int % cands.len() as int];
                let d = Draw {
                    id: l.next_id,
                    giver_id: giver,
                    receiver_id: pick.id,
                    year: year,
                    created_at: created_at,
                };
                (LedgerView { draws: l.draws.push(d), next_id: (l.next_id + 1) as i64 }, Ok(d))
            }
        },
    }
}

/// The display name of the registry record with the given id; empty when no
/// record has it.
pub open spec fn receiver_name_view(codes: Seq<AccessCode>, id: i64) -> Seq<char> {
    match first_with_id_from(codes, id, 0) {
        Some(c) => c.name@,
        None => Seq::<char>::empty(),
    }
}

/// When the scan for an assignment of `(giver, year)` finds nothing, no
/// draw at or after the scanned position matches.
pub proof fn lemma_first_assignment_none(draws: Seq<Draw>, giver: i64, year: i32, i: int)
    requires
        0 <= i,
        first_assignment_from(draws, giver, year, i) is None,
    ensures
        forall|j: int|
            i <= j < draws.len() ==> !((#[trigger] draws[j]).giver_id == giver && draws[j].year
                == year),
    decreases draws.len() - i,
{
    if i < draws.len() {
        lemma_first_assignment_none(draws, giver, year, i + 1);
    }
}

/// Appending a row for a giver who has no assignment for the period makes
/// that row the giver's first assignment.
pub proof fn lemma_first_assignment_push(draws: Seq<Draw>, d: Draw, giver: i64, year: i32, i: int)
    requires
        0 <= i <= draws.len(),
        first_assignment_from(draws, giver, year, i) is None,
        d.giver_id == giver,
        d.year == year,
    ensures
        first_assignment_from(draws.push(d), giver, year, i) == Some(d),
    decreases draws.len() - i,
{
    let s = draws.push(d);
    if i < draws.len() {
        assert(s[i] == draws[i]);
        lemma_first_assignment_push(draws, d, giver, year, i + 1);
    } else {
        assert(s[i] == d);
    }
}

/// Every listed candidate satisfies the candidate predicate.
pub proof fn lemma_candidate_seq_elements(
    codes: Seq<AccessCode>,
    draws: Seq<Draw>,
    giver: i64,
    year: i32,
)
    ensures
        ({
            let cands = candidate_seq(codes, draws, giver, year);
            forall|k: int|
                0 <= k < cands.len() ==> is_candidate(#[trigger] cands[k], draws, giver, year)
        }),
    decreases codes.len(),
{
    if codes.len() > 0 {
        lemma_candidate_seq_elements(codes.drop_last(), draws, giver, year);
        let rest = candidate_seq(codes.drop_last(), draws, giver, year);
        let cands = candidate_seq(codes, draws, giver, year);
        if is_candidate(codes.last(), draws, giver, year) {
            assert(cands == rest.push(codes.last()));
            assert forall|k: int| 0 <= k < cands.len() implies is_candidate(
                #[trigger] cands[k],
                draws,
                giver,
                year,
            ) by {
                if k < rest.len() {
                    assert(cands[k] == rest[k]);
                } else {
                    assert(cands[k] == codes.last());
                }
            };
        } else {
            assert(cands == rest);
        }
    }
}

/// The candidate list is complete as well as sound: it is empty exactly when
/// no registry record is an eligible receiver, so `NoCandidatesAvailable` is
/// a structural outcome, never a missed candidate.
pub proof fn lemma_candidate_seq_complete(
    codes: Seq<AccessCode>,
    draws: Seq<Draw>,
    giver: i64,
    year: i32,
)
    ensures
        (candidate_seq(codes, draws, giver, year).len() == 0) <==> (forall|i: int|
            0 <= i < codes.len() ==> !is_candidate(#[trigger] codes[i], draws, giver, year)),
    decreases codes.len(),
{
    if codes.len() > 0 {
        lemma_candidate_seq_complete(codes.drop_last(), draws, giver, year);
        let rest = candidate_seq(codes.drop_last(), draws, giver, year);
        let cands = candidate_seq(codes, draws, giver, year);
        let lastc = codes.last();
        if cands.len() == 0 {
            assert forall|i: int| 0 <= i < codes.len() implies !is_candidate(
                #[trigger] codes[i],
                draws,
                giver,
                year,
            ) by {
                if i < codes.len() - 1 {
                    assert(codes.drop_last()[i] == codes[i]);
                    assert(!is_candidate(codes.drop_last()[i], draws, giver, year));
                } else {
                    assert(codes[i] == lastc);
                }
            };
        } else {
            if is_candidate(lastc, draws, giver, year) {
                assert(is_candidate(codes[codes.len() - 1], draws, giver, year));
            } else {
                assert(rest.len() > 0);
                assert(exists|j: int|
                    0 <= j < codes.drop_last().len() && is_candidate(
                        #[trigger] codes.drop_last()[j],
                        draws,
                        giver,
                        year,
                    ));
                let j = choose|j: int|
                    0 <= j < codes.drop_last().len() && is_candidate(
                        #[trigger] codes.drop_last()[j],
                        draws,
                        giver,
                        year,
                    );
                assert(codes.drop_last()[j] == codes[j]);
                assert(is_candidate(codes[j], draws, giver, year));
            }
        }
    }
}

/// One request preserves the ledger invariant, whatever the giver, the
/// period, the randomness and the timestamp, and grows the ledger by at most
/// one row.
pub proof fn lemma_request_preserves_wf(
    codes: Seq<AccessCode>,
    l: LedgerView,
    giver: i64,
    year: i32,
    entropy: u64,
    created_at: String,
)
    requires
        ledger_wf(l),
        l.next_id < i64::MAX,
    ensures
        ({
            let (l2, r) = spec_request(codes, l, giver, year, entropy, created_at);
            &&& ledger_wf(l2)
            &&& l.draws.len() <= l2.draws.len() <= l.draws.len() + 1
            &&& l.next_id <= l2.next_id <= l.next_id + 1
        }),
{
    match first_assignment_from(l.draws, giver, year, 0) {
        Some(_) => {},
        None => {
            let cands = candidate_seq(codes, l.draws, giver, year);
            if cands.len() > 0 {
                lemma_first_assignment_none(l.draws, giver, year, 0);
                lemma_candidate_seq_elements(codes, l.draws, giver, year);
                let k = entropy as int % cands.len() as int;
                assert(0 <= k < cands.len());
                let pick = cands[k];
                assert(is_candidate(pick, l.draws, giver, year));
                let (l2, r) = spec_request(codes, l, giver, year, entropy, created_at);
                let d = Draw {
                    id: l.next_id,
                    giver_id: giver,
                    receiver_id: pick.id,
                    year: year,
                    created_at: created_at,
                };
                let nd = l.draws.push(d);
                assert forall|i: int| 0 <= i < nd.len() implies 1 <= (#[trigger] nd[i]).id
                    < l2.next_id by {
                    if i < l.draws.len() {
                        assert(nd[i] == l.draws[i]);
                    } else {
                        assert(nd[i] == d);
                    }
                };
                assert forall|i: int| 0 <= i < nd.len() implies (#[trigger] nd[i]).giver_id
                    != nd[i].receiver_id by {
                    if i < l.draws.len() {
                        assert(nd[i] == l.draws[i]);
                    } else {
                        assert(nd[i] == d);
                    }
                };
                assert forall|i: int, j: int|
                    #![trigger nd[i], nd[j]]
                    0 <= i < j < nd.len() implies {
                    &&& nd[i].id != nd[j].id
                    &&& !(nd[i].giver_id == nd[j].giver_id && nd[i].year == nd[j].year)
                    &&& !(nd[i].receiver_id == nd[j].receiver_id && nd[i].year == nd[j].year)
                } by {
                    if j < l.draws.len() {
                        assert(nd[i] == l.draws[i] && nd[j] == l.draws[j]);
                    } else {
                        assert(nd[i] == l.draws[i]);
                        assert(nd[j] == d);
                        if l.draws[i].receiver_id == d.receiver_id && l.draws[i].year == d.year {
                            assert(is_receiver_for(l.draws, pick.id, year));
                            assert(false);
                        }
                    }
                };
            }
        },
    }
}

/// The eligible receivers for `(giver, year)`, in registry order.
fn collect_candidates(dir: &Directory, ledger: &Ledger, giver: i64, year: i32) -> (r: Vec<
    AccessCode,
>)
    ensures
        r@ == candidate_seq(dir@.codes, ledger@.draws, giver, year),
{
    let mut out: Vec<AccessCode> = Vec::new();
    let mut i: usize = 0;
    while i < dir.codes.len()
        invariant
            0 <= i <= dir.codes.len(),
            out@ == candidate_seq(dir@.codes.take(i as int), ledger@.draws, giver, year),
        decreases dir.codes.len() - i,
    {
        let c = &dir.codes[i];
        let taken = ledger.is_receiver(c.id, year);
        proof {
            assert(dir@.codes.take(i as int + 1).drop_last() =~= dir@.codes.take(i as int));
            assert(dir@.codes.take(i as int + 1).last() == dir@.codes[i as int]);
        }
        if c.active && c.id != giver && !taken {
            out.push(c.clone());
        }
        i = i + 1;
    }
    proof {
        assert(dir@.codes.take(dir.codes.len() as int) =~= dir@.codes);
    }
    out
}

/// Serves one draw request for `(giver, year)` as a single atomic unit
/// against the ledger: a retried request returns the existing assignment
/// unchanged; otherwise the candidate picked by `entropy` among the eligible
/// receivers is recorded and returned. The caller supplies `entropy` from a
/// uniformly random source, so that every remaining candidate is equally
/// likely, and `created_at` as the row's timestamp.
///
/// The assignment policy is the incremental one: each participant draws at
/// the moment of their own request, in arrival order, with no backtracking.
/// This can strand the last giver with nobody eligible — a legitimate
/// `NoCandidatesAvailable` outcome — even though a full derangement over all
/// active participants would have existed; computing one batch derangement
/// at an explicit trigger would avoid that, but would change observed
/// behaviour, so it is deliberately not done here.
pub fn request_assignment(
    dir: &Directory,
    ledger: &mut Ledger,
    giver: i64,
    year: i32,
    entropy: u64,
    created_at: String,
) -> (r: Result<Draw, DrawError>)
    requires
        dir.wf(),
        old(ledger).wf(),
        spec_is_active(dir@.codes, giver),
        old(ledger)@.next_id < i64::MAX,
    ensures
        final(ledger).wf(),
        ({
            let (l2, r2) = spec_request(
                dir@.codes,
                old(ledger)@,
                giver,
                year,
                entropy,
                created_at,
            );
            final(ledger)@ == l2 && r == r2
        }),
{
    proof {
        lemma_request_preserves_wf(dir@.codes, old(ledger)@, giver, year, entropy, created_at);
    }
    match ledger.current_assignment(giver, year) {
        Some(d) => Ok(d),
        None => {
            let cands = collect_candidates(dir, ledger, giver, year);
            if cands.len() == 0 {
                Err(DrawError::NoCandidatesAvailable)
            } else {
                let k = (entropy % (cands.len() as u64)) as usize;
                let receiver_id = cands[k].id;
                let d = Draw {
                    id: ledger.next_id,
                    giver_id: giver,
                    receiver_id: receiver_id,
                    year: year,
                    created_at: created_at,
                };
                ledger.draws.push(d.clone());
                ledger.next_id = ledger.next_id + 1;
                Ok(d)
            }
        },
    }
}

/// What the draw page shows a giver for a period: nothing when they have
/// not drawn yet; otherwise the recorded recipient's id and display name.
pub fn draw_status(dir: &Directory, ledger: &Ledger, giver: i64, year: i32) -> (r: Option<
    DrawResult,
>)
    ensures
        match first_assignment_from(ledger@.draws, giver, year, 0) {
            Some(d) => {
                &&& r is Some
                &&& r.unwrap().assigned_id == d.receiver_id
                &&& r.unwrap().assigned_name@ == receiver_name_view(dir@.codes, d.receiver_id)
            },
            None => r is None,
        },
{
    match ledger.current_assignment(giver, year) {
        Some(d) => {
            let name = match dir.find_by_id(d.receiver_id) {
                Some(c) => c.name,
                None => String::new(),
            };
            Some(DrawResult { assigned_id: d.receiver_id, assigned_name: name })
        },
        None => None,
    }
}

/// The outcome `r` and the new ledger `l1` are exactly what one draw request
/// by `giver` with randomness `entropy` produces from ledger `l0` in period
/// `y` with row timestamp `ts`, the recipient's display name resolved in the
/// registry.
pub open spec fn draw_post(
    codes: Seq<AccessCode>,
    l0: LedgerView,
    l1: LedgerView,
    giver: i64,
    entropy: u64,
    y: i32,
    ts: String,
    r: Result<DrawResult, DrawError>,
) -> bool {
    let (l2, inner) = spec_request(codes, l0, giver, y, entropy, ts);
    &&& l1 == l2
    &&& (match inner {
        Ok(d) => {
            &&& r is Ok
            &&& r.unwrap().assigned_id == d.receiver_id
            &&& r.unwrap().assigned_name@ == receiver_name_view(codes, d.receiver_id)
        },
        Err(e) => r == Err::<DrawResult, DrawError>(e),
    })
}

/// The protected draw endpoint: checks that the caller is authenticated as
/// the requesting giver and that the giver is still active, derives the
/// period from the wall clock, and serves the request atomically. Whatever
/// year and timestamp the clock yields, the outcome is the one the draw
/// contract pins for them.
pub fn perform_draw(
    dir: &Directory,
    ledger: &mut Ledger,
    session: &Session,
    req: &DrawRequest,
    entropy: u64,
) -> (r: Result<DrawResult, DrawError>)
    requires
        dir.wf(),
        old(ledger).wf(),
        session.wf(),
        old(ledger)@.next_id < i64::MAX,
    ensures
        final(ledger).wf(),
        (session.spec_current() != Some(req.user_id) || !spec_is_active(
            dir@.codes,
            req.user_id,
        )) ==> r == Err::<DrawResult, DrawError>(DrawError::NotAuthenticated) && final(ledger)@
            == old(ledger)@,
        (session.spec_current() == Some(req.user_id) && spec_is_active(
            dir@.codes,
            req.user_id,
        )) ==> exists|y: i32, ts: String|
            #[trigger] draw_post(
                dir@.codes,
                old(ledger)@,
                final(ledger)@,
                req.user_id,
                entropy,
                y,
                ts,
                r,
            ),
{
    let authorized = match session.current_participant() {
        Some(id) => id == req.user_id,
        None => false,
    };
    if !authorized {
        return Err(DrawError::NotAuthenticated);
    }
    if !dir.is_active(req.user_id) {
        return Err(DrawError::NotAuthenticated);
    }
    let year = current_period();
    let ts = now_timestamp();
    let ghost tsv = ts;
    let r = match request_assignment(dir, ledger, req.user_id, year, entropy, ts) {
        Ok(d) => {
            let name = match dir.find_by_id(d.receiver_id) {
                Some(c) => c.name,
                None => String::new(),
            };
            Ok(DrawResult { assigned_id: d.receiver_id, assigned_name: name })
        },
        Err(e) => Err(e),
    };
    proof {
        assert(draw_post(
            dir@.codes,
            old(ledger)@,
            ledger@,
            req.user_id,
            entropy,
            year,
            tsv,
            r,
        ));
    }
    r
}

} // verus!
