use rqe_iterators::rqe_iterator::RQEIteratorError;
use rqe_iterators::timeout::TimeoutContext;

#[test]
fn deadline_counts_as_passed_from_the_moment_it_is_reached() {
    let mut ctx = TimeoutContext::new(1_000, 10);
    assert_eq!(ctx.check_elapsed(0), Ok(()));
    assert_eq!(ctx.check_elapsed(999), Ok(()));
    assert_eq!(ctx.check_elapsed(1_000), Err(RQEIteratorError::TimedOut));
    assert_eq!(ctx.check_elapsed(u128::MAX), Err(RQEIteratorError::TimedOut));
}

#[test]
fn clock_is_looked_at_once_in_so_many_checks() {
    let mut ctx = TimeoutContext::new(0, 3);
    for _ in 0..4 {
        assert_eq!(ctx.check_timeout(), Ok(()));
        assert_eq!(ctx.check_timeout(), Ok(()));
        assert_eq!(ctx.check_timeout(), Err(RQEIteratorError::TimedOut));
    }
}

#[test]
fn reset_starts_the_count_anew() {
    let mut ctx = TimeoutContext::new(0, 3);
    for _ in 0..10 {
        assert_eq!(ctx.check_timeout(), Ok(()));
        assert_eq!(ctx.check_timeout(), Ok(()));
        ctx.reset_counter();
    }
}

#[test]
fn clock_runs_on_towards_the_deadline() {
    // A millisecond passes sooner or later.
    let mut ctx = TimeoutContext::new(1_000_000, 1);
    let mut checks: u64 = 0;
    while ctx.check_timeout().is_ok() {
        checks += 1;
        assert!(checks < u64::MAX);
    }
    assert_eq!(ctx.check_timeout(), Err(RQEIteratorError::TimedOut));
    let mut ctx = TimeoutContext::new(u128::MAX, 1);
    assert_eq!(ctx.check_timeout(), Ok(()));
}
