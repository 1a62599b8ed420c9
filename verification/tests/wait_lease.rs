use herdr::wait_lease::{ActiveWaitLease, WaitLease, MAX_WAIT_LEASE_TTL_MS};

#[test]
fn lease_is_inactive_at_its_expiry() {
    let lease = WaitLease::new("job-42".into(), "token".into(), 2_000);

    assert!(lease.is_active_at(1_999));
    assert!(!lease.is_active_at(2_000));
}

#[test]
fn lease_token_matches_only_its_owner() {
    let lease = WaitLease::new("job-42".into(), "owner-token".into(), 2_000);

    assert!(lease.token_matches("owner-token"));
    assert!(!lease.token_matches("other-token"));
}

#[test]
fn lease_gives_back_what_it_was_made_of() {
    let lease = WaitLease::new("job-42".into(), "owner-token".into(), 2_000);

    assert_eq!(lease.job_id(), "job-42");
    assert_eq!(lease.token(), "owner-token");
    assert_eq!(lease.expires_at_ms(), 2_000);
}

#[test]
fn active_lease_tells_the_time_that_is_left() {
    let lease = WaitLease::new("job-42".into(), "owner-token".into(), 2_000);

    assert_eq!(
        lease.active_at(500),
        Some(ActiveWaitLease {
            job_id: "job-42".into(),
            remaining_ms: 1_500,
        })
    );
    assert_eq!(
        lease.active_at(1_999).map(|active| active.remaining_ms),
        Some(1)
    );
    assert_eq!(lease.active_at(2_000), None);
    assert_eq!(lease.active_at(u64::MAX), None);
}

#[test]
fn a_lease_lasts_a_day_at_most() {
    assert_eq!(MAX_WAIT_LEASE_TTL_MS, 24 * 60 * 60 * 1_000);
}
