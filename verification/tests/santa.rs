use winter_card::clock::current_period;
use winter_card::clock::now_timestamp;
use winter_card::directory::Directory;
use winter_card::directory::RegistryError;
use winter_card::engine::draw_status;
use winter_card::engine::perform_draw;
use winter_card::engine::request_assignment;
use winter_card::engine::DrawError;
use winter_card::ledger::Ledger;
use winter_card::models::AccessCode;
use winter_card::models::CreateAccessCode;
use winter_card::models::DrawRequest;
use winter_card::routes;
use winter_card::session::AuthError;
use winter_card::session::AuthenticatedUser;
use winter_card::session::Session;

fn participant(name: &str, code: &str, active: bool) -> CreateAccessCode {
    CreateAccessCode { name: name.to_string(), code: code.to_string(), active }
}

/// A registry with A(id=1, active), B(id=2, active), C(id=3, inactive).
fn abc_directory() -> Directory {
    let mut dir = Directory::new();
    assert_eq!(dir.create_access_code(&participant("A", "code-a", true)).unwrap().id, 1);
    assert_eq!(dir.create_access_code(&participant("B", "code-b", true)).unwrap().id, 2);
    assert_eq!(dir.create_access_code(&participant("C", "code-c", false)).unwrap().id, 3);
    dir
}

#[test]
fn scenario_draw_never_self_never_inactive() {
    // A(1, active), B(2, active), C(3, inactive), period 2025: a draw by A
    // must never return C nor A itself; with only B eligible, the receiver
    // is deterministically 2, whatever the entropy.
    let dir = abc_directory();
    for entropy in 0..32u64 {
        let mut ledger = Ledger::new();
        let d = request_assignment(&dir, &mut ledger, 1, 2025, entropy, "now".to_string())
            .expect("one candidate remains");
        assert_eq!(d.giver_id, 1);
        assert_eq!(d.receiver_id, 2);
        assert_ne!(d.receiver_id, 1);
        assert_ne!(d.receiver_id, 3);
        assert_eq!(d.year, 2025);
        assert_eq!(d.created_at, "now");
        assert_eq!(ledger.rows().len(), 1);
    }
}

#[test]
fn request_assignment_is_idempotent() {
    // A second request for the same giver and period, with different
    // entropy and timestamp, returns the same assignment and adds no row.
    let mut dir = Directory::new();
    dir.create_access_code(&participant("A", "code-a", true)).unwrap();
    dir.create_access_code(&participant("B", "code-b", true)).unwrap();
    dir.create_access_code(&participant("D", "code-d", true)).unwrap();
    let mut ledger = Ledger::new();
    let first = request_assignment(&dir, &mut ledger, 1, 2025, 4, "t1".to_string()).unwrap();
    let again = request_assignment(&dir, &mut ledger, 1, 2025, 11, "t2".to_string()).unwrap();
    assert_eq!(first.id, again.id);
    assert_eq!(first.receiver_id, again.receiver_id);
    assert_eq!(first.created_at, again.created_at);
    assert_eq!(ledger.rows().len(), 1);
}

#[test]
fn exhaustion_yields_no_candidates() {
    // Three actives; C draws B; then C is deactivated. Two actives remain
    // and B is already everyone's receiver for the period, so the remaining
    // giver A gets NoCandidatesAvailable.
    let mut dir = Directory::new();
    dir.create_access_code(&participant("A", "code-a", true)).unwrap();
    dir.create_access_code(&participant("B", "code-b", true)).unwrap();
    dir.create_access_code(&participant("C", "code-c", true)).unwrap();
    let mut ledger = Ledger::new();
    // candidates of giver 3 are [1, 2]; entropy 1 picks B(2)
    let d = request_assignment(&dir, &mut ledger, 3, 2025, 1, "t".to_string()).unwrap();
    assert_eq!(d.receiver_id, 2);
    let off = AccessCode { id: 3, name: "C".to_string(), code: "code-c".to_string(), active: false };
    dir.update_access_code(3, &off).unwrap();
    let r = request_assignment(&dir, &mut ledger, 1, 2025, 0, "t".to_string());
    assert_eq!(r.unwrap_err(), DrawError::NoCandidatesAvailable);
    assert_eq!(ledger.rows().len(), 1);
}

#[test]
fn sequential_draws_form_derangement() {
    // Three mutually eligible actives each draw once; the rows form a valid
    // partial derangement: each giver once, each receiver at most once, no
    // fixed point.
    let mut dir = Directory::new();
    dir.create_access_code(&participant("A", "code-a", true)).unwrap();
    dir.create_access_code(&participant("B", "code-b", true)).unwrap();
    dir.create_access_code(&participant("C", "code-c", true)).unwrap();
    let mut ledger = Ledger::new();
    request_assignment(&dir, &mut ledger, 1, 2025, 0, "t".to_string()).unwrap();
    request_assignment(&dir, &mut ledger, 2, 2025, 1, "t".to_string()).unwrap();
    request_assignment(&dir, &mut ledger, 3, 2025, 0, "t".to_string()).unwrap();
    let rows = ledger.rows();
    assert_eq!(rows.len(), 3);
    let mut givers: Vec<i64> = rows.iter().map(|d| d.giver_id).collect();
    let mut receivers: Vec<i64> = rows.iter().map(|d| d.receiver_id).collect();
    givers.sort();
    assert_eq!(givers, vec![1, 2, 3]);
    receivers.sort();
    receivers.dedup();
    assert_eq!(receivers.len(), 3);
    for d in rows.iter() {
        assert_ne!(d.giver_id, d.receiver_id);
        assert_eq!(d.year, 2025);
    }
}

#[test]
fn failed_login_leaves_session_unchanged() {
    // With no authenticated session, a bad code leaves it unauthenticated;
    // with one, a bad code leaves the prior identity intact.
    let dir = abc_directory();
    let mut session = Session::new();
    assert_eq!(session.login(&dir, "bad-code").unwrap_err(), AuthError::AuthLookupFailed);
    assert_eq!(session.current_participant(), None);
    assert_eq!(session.login(&dir, "code-a").unwrap(), 1);
    assert_eq!(session.current_participant(), Some(1));
    assert_eq!(session.login(&dir, "bad-code").unwrap_err(), AuthError::AuthLookupFailed);
    assert_eq!(session.current_participant(), Some(1));
}

#[test]
fn login_is_case_sensitive_and_skips_inactive() {
    let dir = abc_directory();
    let mut session = Session::new();
    // exact, case-sensitive match only
    assert!(session.login(&dir, "CODE-A").is_err());
    // an inactive participant cannot log in
    assert!(session.login(&dir, "code-c").is_err());
    assert_eq!(session.current_participant(), None);
}

#[test]
fn logout_resets_session() {
    let dir = abc_directory();
    let mut session = Session::new();
    session.login(&dir, "code-b").unwrap();
    assert_eq!(session.current_participant(), Some(2));
    session.logout();
    assert_eq!(session.current_participant(), None);
    assert_eq!(session.require_authenticated().unwrap_err(), AuthError::NotAuthenticated);
}

#[test]
fn require_authenticated_gates_operations() {
    let dir = abc_directory();
    let mut session = Session::new();
    assert_eq!(session.require_authenticated().unwrap_err(), AuthError::NotAuthenticated);
    assert!(AuthenticatedUser::from_session(&session).is_err());
    session.login(&dir, "code-a").unwrap();
    assert_eq!(session.require_authenticated().unwrap(), 1);
    assert!(AuthenticatedUser::from_session(&session).is_ok());
}

#[test]
fn perform_draw_requires_matching_identity() {
    let dir = abc_directory();
    let mut ledger = Ledger::new();
    // no identity at all
    let session = Session::new();
    let r = perform_draw(&dir, &mut ledger, &session, &DrawRequest { user_id: 1 }, 0);
    assert_eq!(r.unwrap_err(), DrawError::NotAuthenticated);
    // authenticated as somebody else
    let mut session = Session::new();
    session.login(&dir, "code-b").unwrap();
    let r = perform_draw(&dir, &mut ledger, &session, &DrawRequest { user_id: 1 }, 0);
    assert_eq!(r.unwrap_err(), DrawError::NotAuthenticated);
    assert_eq!(ledger.rows().len(), 0);
}

#[test]
fn perform_draw_rejects_inactive_giver() {
    let mut dir = abc_directory();
    let mut ledger = Ledger::new();
    let mut session = Session::new();
    session.login(&dir, "code-a").unwrap();
    // A is deactivated after authenticating
    let off = AccessCode { id: 1, name: "A".to_string(), code: "code-a".to_string(), active: false };
    dir.update_access_code(1, &off).unwrap();
    let r = perform_draw(&dir, &mut ledger, &session, &DrawRequest { user_id: 1 }, 0);
    assert_eq!(r.unwrap_err(), DrawError::NotAuthenticated);
}

#[test]
fn perform_draw_assigns_and_reports() {
    // The protected endpoint draws for the current wall-clock year; the
    // status view then reports the same recipient.
    let dir = abc_directory();
    let mut ledger = Ledger::new();
    let mut session = Session::new();
    session.login(&dir, "code-a").unwrap();
    let year = current_period();
    assert!(year >= 2024);
    assert!(draw_status(&dir, &ledger, 1, year).is_none());
    let r = perform_draw(&dir, &mut ledger, &session, &DrawRequest { user_id: 1 }, 17).unwrap();
    assert_eq!(r.assigned_id, 2);
    assert_eq!(r.assigned_name, "B");
    let rows = ledger.rows();
    assert_eq!(rows.len(), 1);
    assert_eq!(rows[0].year, year);
    // the row's timestamp came from the clock as an RFC 3339 instant
    assert!(rows[0].created_at.contains('T'));
    let status = draw_status(&dir, &ledger, 1, year).expect("already drawn");
    assert_eq!(status.assigned_id, 2);
    assert_eq!(status.assigned_name, "B");
    assert!(draw_status(&dir, &ledger, 2, year).is_none());
    // a retried request changes nothing
    let again = perform_draw(&dir, &mut ledger, &session, &DrawRequest { user_id: 1 }, 3).unwrap();
    assert_eq!(again.assigned_id, 2);
    assert_eq!(ledger.rows().len(), 1);
}

#[test]
fn timestamp_reads_the_clock() {
    let ts = now_timestamp();
    assert!(!ts.is_empty());
    assert!(ts.contains('T'));
}

#[test]
fn create_rejects_duplicate_code() {
    let mut dir = Directory::new();
    dir.create_access_code(&participant("A", "same-code", true)).unwrap();
    let r = dir.create_access_code(&participant("B", "same-code", false));
    assert_eq!(r.unwrap_err(), RegistryError::DuplicateCode);
    assert_eq!(dir.records().len(), 1);
}

#[test]
fn update_rejects_missing_and_clashing() {
    let mut dir = abc_directory();
    let ghostly = AccessCode { id: 9, name: "X".to_string(), code: "code-x".to_string(), active: true };
    assert_eq!(dir.update_access_code(9, &ghostly).unwrap_err(), RegistryError::NotFound);
    // renaming B's code to A's code clashes
    let clash = AccessCode { id: 2, name: "B".to_string(), code: "code-a".to_string(), active: true };
    assert_eq!(dir.update_access_code(2, &clash).unwrap_err(), RegistryError::DuplicateCode);
    // keeping B's own code is no clash
    let keep = AccessCode { id: 2, name: "B renamed".to_string(), code: "code-b".to_string(), active: true };
    assert!(dir.update_access_code(2, &keep).is_ok());
    assert_eq!(dir.find_by_id(2).unwrap().name, "B renamed");
}

#[test]
fn delete_rejects_missing() {
    let mut dir = abc_directory();
    assert_eq!(dir.delete_access_code(9).unwrap_err(), RegistryError::NotFound);
    assert!(dir.delete_access_code(2).is_ok());
    assert!(dir.find_by_id(2).is_none());
    assert_eq!(dir.records().len(), 2);
}

#[test]
fn listing_joins_first_draw_by_giver() {
    let dir = abc_directory();
    let mut ledger = Ledger::new();
    request_assignment(&dir, &mut ledger, 1, 2025, 0, "t".to_string()).unwrap();
    let listed = dir.list_access_codes(&ledger);
    assert_eq!(listed.len(), 3);
    assert_eq!(listed[0].id, 1);
    assert!(listed[0].drawn);
    assert_eq!(listed[0].receiver_id, Some(2));
    assert_eq!(listed[0].year, Some(2025));
    assert!(!listed[1].drawn);
    assert_eq!(listed[1].receiver_id, None);
    assert_eq!(listed[1].year, None);
    assert!(!listed[2].drawn);
}

#[test]
fn route_table_matches_mounts() {
    let r = routes();
    assert_eq!(
        r,
        vec![
            "/",
            "/login",
            "/logout",
            "/admin",
            "/admin/api/codes",
            "/admin/api/codes",
            "/admin/api/codes/<id>",
            "/admin/api/codes/<id>",
            "/secret_santa",
            "/secret_santa/api/draw",
        ]
    );
}
