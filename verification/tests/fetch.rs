use bookscrape::fetch::{replay, Backoff, Directive, FetchOutcome, FetchPolicy, Reply};

fn limited() -> Reply {
    Reply::Status { code: 429 }
}

#[test]
fn standard_policy_values() {
    let p = FetchPolicy::standard();
    assert_eq!(p.retry_budget, 3);
    assert_eq!(p.initial_delay_ms, 3000);
    assert_eq!(p.courtesy_delay_ms, 900);
    assert!(p.is_well_formed());
}

#[test]
fn three_rate_limits_then_success() {
    let t = replay(&FetchPolicy::standard(), &vec![limited(), limited(), limited(), Reply::Body]);
    assert_eq!(t.outcome, FetchOutcome::Delivered);
    assert_eq!(t.requests, 4);
    assert_eq!(t.pauses, vec![3000, 6000, 12000, 900]);
}

#[test]
fn two_rate_limits_then_success() {
    let t = replay(&FetchPolicy::standard(), &vec![limited(), limited(), Reply::Body, Reply::Body]);
    assert_eq!(t.outcome, FetchOutcome::Delivered);
    assert_eq!(t.requests, 3);
    assert_eq!(t.pauses, vec![3000, 6000, 900]);
}

#[test]
fn fourth_rate_limit_exhausts_the_standard_budget() {
    let t = replay(
        &FetchPolicy::standard(),
        &vec![limited(), limited(), limited(), limited(), Reply::Body],
    );
    assert_eq!(t.outcome, FetchOutcome::RetriesExhausted);
    assert_eq!(t.requests, 4);
    assert_eq!(t.pauses, vec![3000, 6000, 12000]);
}

#[test]
fn rate_limits_beyond_the_budget_exhaust_it() {
    let replies = vec![limited(); 10];
    let t = replay(&FetchPolicy::standard(), &replies);
    assert_eq!(t.outcome, FetchOutcome::RetriesExhausted);
    assert_eq!(t.requests, 4);
    assert_eq!(t.pauses, vec![3000, 6000, 12000]);
}

#[test]
fn immediate_success_waits_the_courtesy_delay() {
    let t = replay(&FetchPolicy::standard(), &vec![Reply::Body]);
    assert_eq!(t.outcome, FetchOutcome::Delivered);
    assert_eq!(t.requests, 1);
    assert_eq!(t.pauses, vec![900]);
}

#[test]
fn other_error_status_is_not_retried() {
    let t = replay(&FetchPolicy::standard(), &vec![Reply::Status { code: 500 }, Reply::Body]);
    assert_eq!(t.outcome, FetchOutcome::TransportError);
    assert_eq!(t.requests, 1);
    assert!(t.pauses.is_empty());
}

#[test]
fn broken_request_after_a_retry_is_terminal() {
    let t = replay(&FetchPolicy::standard(), &vec![limited(), Reply::Broken, Reply::Body]);
    assert_eq!(t.outcome, FetchOutcome::TransportError);
    assert_eq!(t.requests, 2);
    assert_eq!(t.pauses, vec![3000]);
}

#[test]
fn failure_after_three_rate_limits_is_a_transport_error() {
    let t = replay(
        &FetchPolicy::standard(),
        &vec![limited(), limited(), limited(), Reply::Status { code: 503 }],
    );
    assert_eq!(t.outcome, FetchOutcome::TransportError);
    assert_eq!(t.requests, 4);
    assert_eq!(t.pauses, vec![3000, 6000, 12000]);
}

#[test]
fn fetch_waits_while_replies_are_missing() {
    let t = replay(&FetchPolicy::standard(), &Vec::new());
    assert_eq!(t.outcome, FetchOutcome::Waiting);
    assert_eq!(t.requests, 0);
    let t = replay(&FetchPolicy::standard(), &vec![limited()]);
    assert_eq!(t.outcome, FetchOutcome::Waiting);
    assert_eq!(t.requests, 1);
    assert_eq!(t.pauses, vec![3000]);
    let t = replay(&FetchPolicy::standard(), &vec![limited(), limited(), limited()]);
    assert_eq!(t.outcome, FetchOutcome::Waiting);
    assert_eq!(t.requests, 3);
    assert_eq!(t.pauses, vec![3000, 6000, 12000]);
}

#[test]
fn zero_budget_never_retries() {
    let policy = FetchPolicy { retry_budget: 0, initial_delay_ms: 3000, courtesy_delay_ms: 900 };
    assert!(policy.is_well_formed());
    let t = replay(&policy, &vec![limited(), Reply::Body]);
    assert_eq!(t.outcome, FetchOutcome::RetriesExhausted);
    assert_eq!(t.requests, 1);
    assert!(t.pauses.is_empty());
    let t = replay(&policy, &vec![Reply::Body]);
    assert_eq!(t.outcome, FetchOutcome::Delivered);
    assert_eq!(t.requests, 1);
    assert_eq!(t.pauses, vec![900]);
}

#[test]
fn policy_whose_delays_overflow_is_not_well_formed() {
    let bad = FetchPolicy { retry_budget: 2, initial_delay_ms: u64::MAX / 2, courtesy_delay_ms: 0 };
    assert!(!bad.is_well_formed());
    let edge = FetchPolicy { retry_budget: 1, initial_delay_ms: u64::MAX / 2, courtesy_delay_ms: 0 };
    assert!(edge.is_well_formed());
    let long = FetchPolicy { retry_budget: 64, initial_delay_ms: 1, courtesy_delay_ms: 0 };
    assert!(!long.is_well_formed());
    let fits = FetchPolicy { retry_budget: 63, initial_delay_ms: 1, courtesy_delay_ms: 0 };
    assert!(fits.is_well_formed());
}

#[test]
fn backoff_step_by_step() {
    let policy = FetchPolicy::standard();
    let mut b = Backoff::start(&policy);
    assert!(b.can_retry());
    assert_eq!(b.on_reply(limited()), Directive::Retry { pause_ms: 3000 });
    assert!(b.can_retry());
    assert_eq!(b.on_reply(Reply::Status { code: 404 }), Directive::Fail);
    assert!(b.can_retry());
    assert_eq!(b.on_reply(limited()), Directive::Retry { pause_ms: 6000 });
    assert!(b.can_retry());
    assert_eq!(b.on_reply(Reply::Body), Directive::Deliver { pause_ms: 900 });
    assert!(b.can_retry());
    assert_eq!(b.on_reply(limited()), Directive::Retry { pause_ms: 12000 });
    assert!(!b.can_retry());
    assert_eq!(b.on_reply(limited()), Directive::Exhausted);
    assert!(!b.can_retry());
    assert_eq!(b.on_reply(limited()), Directive::Exhausted);
    assert_eq!(b.on_reply(Reply::Body), Directive::Deliver { pause_ms: 900 });
    assert_eq!(b.on_reply(Reply::Broken), Directive::Fail);
}
