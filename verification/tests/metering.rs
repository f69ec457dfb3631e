use auria_core::meter::{issue_receipt, Allowance};
use auria_core::{
    ExpertId, LicenseTerms, LicenseType, LicenseUsage, PublicKey, RateLimit, RateLimited,
    RequestId, ShardId, Signature, UsageMeter,
};

fn usage() -> LicenseUsage {
    LicenseUsage {
        license_id: ShardId([1; 32]),
        node_pubkey: PublicKey([2; 32]),
        tokens_used: 0,
        requests_made: 0,
        last_updated: 0,
    }
}

fn terms(license_type: LicenseType, rate_limit: Option<RateLimit>) -> LicenseTerms {
    LicenseTerms { license_type, max_shards: 1, allowed_tiers: Vec::new(), rate_limit }
}

fn unlimited() -> LicenseType {
    LicenseType::Enterprise { unlimited: true, max_concurrent_requests: 0 }
}

#[test]
fn the_bucket_admits_a_burst_then_refuses_then_refills() {
    let mut meter = UsageMeter::new(Vec::new());
    let mut u = usage();
    let t = terms(unlimited(), Some(RateLimit { requests_per_second: 1, burst_size: 5 }));
    for _ in 0..5 {
        assert!(meter.charge(&mut u, &t, 1, 100).is_ok());
    }
    assert_eq!(meter.charge(&mut u, &t, 1, 100).unwrap_err(), RateLimited::Throttled);
    assert_eq!(u.requests_made, 5);
    assert!(meter.charge(&mut u, &t, 1, 101).is_ok());
    assert_eq!(meter.charge(&mut u, &t, 1, 101).unwrap_err(), RateLimited::Throttled);
    assert_eq!(u.requests_made, 6);
}

#[test]
fn the_bucket_never_holds_more_than_the_burst() {
    let mut meter = UsageMeter::new(Vec::new());
    let mut u = usage();
    let t = terms(unlimited(), Some(RateLimit { requests_per_second: 2, burst_size: 3 }));
    assert!(meter.charge(&mut u, &t, 1, 10).is_ok());
    // A long wait refills to the burst and no further.
    for _ in 0..3 {
        assert!(meter.charge(&mut u, &t, 1, 1_000_000).is_ok());
    }
    assert_eq!(meter.charge(&mut u, &t, 1, 1_000_000).unwrap_err(), RateLimited::Throttled);
    // One second refills two tokens.
    assert!(meter.charge(&mut u, &t, 1, 1_000_001).is_ok());
    assert!(meter.charge(&mut u, &t, 1, 1_000_001).is_ok());
    assert_eq!(meter.charge(&mut u, &t, 1, 1_000_001).unwrap_err(), RateLimited::Throttled);
    // A clock that goes back refills nothing.
    assert_eq!(meter.charge(&mut u, &t, 1, 5).unwrap_err(), RateLimited::Throttled);
}

#[test]
fn a_burst_of_zero_admits_nothing() {
    let mut meter = UsageMeter::new(Vec::new());
    let mut u = usage();
    let t = terms(unlimited(), Some(RateLimit { requests_per_second: 10, burst_size: 0 }));
    assert_eq!(meter.charge(&mut u, &t, 1, 50).unwrap_err(), RateLimited::Throttled);
}

#[test]
fn pay_per_use_charges_until_the_credits_are_spent() {
    let mut meter = UsageMeter::new(Vec::new());
    let mut u = usage();
    let t = terms(
        LicenseType::PayPerUse { credits: 100, cost_per_token_micros: 2_000_000 },
        None,
    );
    assert!(meter.charge(&mut u, &t, 40, 7).is_ok());
    assert_eq!((u.tokens_used, u.requests_made, u.last_updated), (40, 1, 7));
    assert_eq!(meter.charge(&mut u, &t, 15, 8).unwrap_err(), RateLimited::InsufficientCredit);
    assert_eq!((u.tokens_used, u.requests_made, u.last_updated), (40, 1, 7));
    assert_eq!(meter.in_flight(), 1);
    // Ten more tokens are exactly what is left.
    assert!(meter.charge(&mut u, &t, 10, 9).is_ok());
    assert_eq!((u.tokens_used, u.requests_made, u.last_updated), (50, 2, 9));
    assert_eq!(meter.charge(&mut u, &t, 1, 9).unwrap_err(), RateLimited::InsufficientCredit);
}

#[test]
fn fractional_prices_are_charged_exactly() {
    let mut meter = UsageMeter::new(Vec::new());
    let mut u = usage();
    // A token costs a quarter of a credit.
    let t = terms(LicenseType::PayPerUse { credits: 1, cost_per_token_micros: 250_000 }, None);
    assert!(meter.charge(&mut u, &t, 4, 1).is_ok());
    assert_eq!(meter.charge(&mut u, &t, 1, 1).unwrap_err(), RateLimited::InsufficientCredit);
    let mut big = usage();
    big.tokens_used = u64::MAX - 10;
    let t = terms(
        LicenseType::PayPerUse { credits: u64::MAX, cost_per_token_micros: u64::MAX },
        None,
    );
    assert_eq!(meter.charge(&mut big, &t, 5, 1).unwrap_err(), RateLimited::InsufficientCredit);
    assert_eq!(big.tokens_used, u64::MAX - 10);
}

#[test]
fn a_subscription_caps_the_requests() {
    let mut meter = UsageMeter::new(Vec::new());
    let mut u = usage();
    let t = terms(
        LicenseType::Subscription { tier: "pro".to_string(), max_requests_per_day: 2 },
        None,
    );
    assert!(meter.charge(&mut u, &t, 1000, 1).is_ok());
    assert!(meter.charge(&mut u, &t, 1000, 2).is_ok());
    assert_eq!(meter.charge(&mut u, &t, 1, 3).unwrap_err(), RateLimited::QuotaExceeded);
    assert_eq!((u.tokens_used, u.requests_made, u.last_updated), (2000, 2, 2));
}

#[test]
fn an_enterprise_license_has_a_ceiling_of_requests_in_flight() {
    let mut meter = UsageMeter::new(Vec::new());
    let mut u = usage();
    let t = terms(LicenseType::Enterprise { unlimited: false, max_concurrent_requests: 2 }, None);
    assert!(meter.charge(&mut u, &t, 1, 1).is_ok());
    assert!(meter.charge(&mut u, &t, 1, 1).is_ok());
    assert_eq!(meter.in_flight(), 2);
    assert_eq!(meter.charge(&mut u, &t, 1, 1).unwrap_err(), RateLimited::QuotaExceeded);
    meter.release();
    assert_eq!(meter.in_flight(), 1);
    assert!(meter.charge(&mut u, &t, 1, 1).is_ok());
    let free = terms(unlimited(), None);
    for _ in 0..10 {
        assert!(meter.charge(&mut u, &free, 1, 1).is_ok());
    }
    assert_eq!(meter.in_flight(), 12);
    for _ in 0..20 {
        meter.release();
    }
    assert_eq!(meter.in_flight(), 0);
}

#[test]
fn a_community_tier_has_its_named_allowance() {
    let allowances = vec![
        Allowance { tier: "free".to_string(), max_tokens: 10 },
        Allowance { tier: "student".to_string(), max_tokens: 100 },
        Allowance { tier: "free".to_string(), max_tokens: 20 },
    ];
    let mut meter = UsageMeter::new(allowances);
    let mut u = usage();
    let free = terms(LicenseType::Community { tier: "free".to_string() }, None);
    assert!(meter.charge(&mut u, &free, 20, 1).is_ok());
    assert_eq!(meter.charge(&mut u, &free, 1, 2).unwrap_err(), RateLimited::QuotaExceeded);
    let student = terms(LicenseType::Community { tier: "student".to_string() }, None);
    assert!(meter.charge(&mut u, &student, 80, 3).is_ok());
    assert_eq!(meter.charge(&mut u, &student, 1, 3).unwrap_err(), RateLimited::QuotaExceeded);
    let unknown = terms(LicenseType::Community { tier: "gold".to_string() }, None);
    let mut fresh = usage();
    assert_eq!(meter.charge(&mut fresh, &unknown, 1, 3).unwrap_err(), RateLimited::QuotaExceeded);
    assert!(meter.charge(&mut fresh, &unknown, 0, 3).is_ok());
}

#[test]
fn a_refused_charge_changes_nothing() {
    let mut meter = UsageMeter::new(Vec::new());
    let mut u = usage();
    let limit = Some(RateLimit { requests_per_second: 1, burst_size: 2 });
    let paid = terms(LicenseType::PayPerUse { credits: 1, cost_per_token_micros: 1_000_000 }, limit);
    // Refused for credit: the bucket keeps its token.
    assert_eq!(meter.charge(&mut u, &paid, 2, 10).unwrap_err(), RateLimited::InsufficientCredit);
    assert_eq!(meter.charge(&mut u, &paid, 2, 10).unwrap_err(), RateLimited::InsufficientCredit);
    assert_eq!(meter.charge(&mut u, &paid, 2, 10).unwrap_err(), RateLimited::InsufficientCredit);
    assert_eq!(meter.in_flight(), 0);
    assert_eq!((u.tokens_used, u.requests_made, u.last_updated), (0, 0, 0));
    let free = terms(unlimited(), limit);
    assert!(meter.charge(&mut u, &free, 1, 10).is_ok());
    assert!(meter.charge(&mut u, &free, 1, 10).is_ok());
    assert_eq!(meter.charge(&mut u, &free, 1, 10).unwrap_err(), RateLimited::Throttled);
}

#[test]
fn counters_at_their_end_refuse_the_charge() {
    let mut meter = UsageMeter::new(Vec::new());
    let t = terms(unlimited(), None);
    let mut u = usage();
    u.tokens_used = u64::MAX - 3;
    assert_eq!(meter.charge(&mut u, &t, 4, 1).unwrap_err(), RateLimited::QuotaExceeded);
    assert!(meter.charge(&mut u, &t, 3, 1).is_ok());
    assert_eq!(u.tokens_used, u64::MAX);
    let mut r = usage();
    r.requests_made = u64::MAX;
    assert_eq!(meter.charge(&mut r, &t, 0, 1).unwrap_err(), RateLimited::QuotaExceeded);
    assert_eq!(r.requests_made, u64::MAX);
}

#[test]
fn a_receipt_records_the_debit() {
    let mut meter = UsageMeter::new(Vec::new());
    let mut u = usage();
    let t = terms(unlimited(), None);
    let debit = meter.charge(&mut u, &t, 42, 1234).unwrap();
    assert_eq!(debit.tokens(), 42);
    assert_eq!(debit.timestamp(), 1234);
    let request = RequestId([7; 16]);
    let experts = vec![ExpertId([1; 32]), ExpertId([2; 32])];
    let bytes = debit.signing_bytes(&request, &experts).unwrap();
    let mut want = vec![7u8; 16];
    want.extend_from_slice(&[0, 0, 0, 2]);
    want.extend_from_slice(&[1u8; 32]);
    want.extend_from_slice(&[2u8; 32]);
    want.extend_from_slice(&[0, 0, 0, 42]);
    want.extend_from_slice(&[0, 0, 0, 0, 0, 0, 0x04, 0xD2]);
    assert_eq!(bytes, want);
    let receipt = issue_receipt(debit, request, experts.clone(), Signature([5; 64]));
    assert_eq!(receipt.request_id, request);
    assert_eq!(receipt.expert_ids, experts);
    assert_eq!(receipt.token_count, 42);
    assert_eq!(receipt.timestamp, 1234);
    assert_eq!(receipt.node_signature, Signature([5; 64]));
    let copy = receipt.clone();
    assert_eq!(copy.expert_ids, experts);
    assert_eq!(copy.token_count, 42);
}
