use purge_sidecar::bucket::TokenBucket;
use purge_sidecar::fanout::{aggregate, aggregate_fanout, plan_fanout, plan_tier_op, PurgeError,
    PurgeRequest};
use purge_sidecar::numfmt::dec_string;
use purge_sidecar::registry::Registry;

fn sample_registry() -> Registry {
    let mut reg = Registry::new();
    reg.insert(
        "shield".to_string(),
        vec![
            "varnish-shield-1:80".to_string(),
            "varnish-shield-2:80".to_string(),
            "varnish-shield-3:80".to_string(),
        ],
    );
    reg.insert(
        "edge".to_string(),
        vec![
            "ats-edge-1:8080".to_string(),
            "ats-edge-2:8080".to_string(),
            "ats-edge-3:8080".to_string(),
        ],
    );
    reg
}

#[test]
fn test_bucket_new_starts_full() {
    let bucket = TokenBucket::new(100, 1000);
    assert_eq!(bucket.tokens, 1000);
    assert_eq!(bucket.rate, 100);
    assert_eq!(bucket.max_tokens, 1000);
}

#[test]
fn test_bucket_balance_stays_within_bounds() {
    let mut bucket = TokenBucket::new(3, 10);
    assert!(bucket.consume(5));
    assert_eq!(bucket.tokens, 5);
    assert!(bucket.consume(5));
    assert_eq!(bucket.tokens, 3);
    assert!(bucket.consume(5));
    assert_eq!(bucket.tokens, 1);
    assert!(!bucket.consume(5));
    assert_eq!(bucket.tokens, 4);
    assert!(bucket.tokens <= bucket.max_tokens);
}

#[test]
fn test_bucket_refill_is_capped() {
    let mut bucket = TokenBucket::new(100, 1000);
    assert!(bucket.consume(1));
    assert_eq!(bucket.tokens, 999);
}

#[test]
fn test_non_replenishing_bucket_rejects_everything() {
    let mut bucket = TokenBucket::new(0, 5);
    assert!(bucket.consume(5));
    assert_eq!(bucket.tokens, 0);
    assert!(!bucket.consume(1));
    assert!(!bucket.consume(1));
    assert!(!bucket.consume(1));
    assert_eq!(bucket.tokens, 0);
}

#[test]
fn test_cost_above_capacity_never_admitted() {
    let mut bucket = TokenBucket::new(2, 5);
    assert!(!bucket.consume(6));
    assert_eq!(bucket.tokens, 5);
}

#[test]
fn test_purge_with_one_node_failing() {
    let reg = sample_registry();
    let mut bucket = TokenBucket::new(100, 1000);
    let tier = "shield".to_string();
    let nodes = plan_tier_op(&mut bucket, &reg, &tier).unwrap();
    assert_eq!(
        nodes,
        &vec![
            "varnish-shield-1:80".to_string(),
            "varnish-shield-2:80".to_string(),
            "varnish-shield-3:80".to_string(),
        ]
    );
    assert_eq!(bucket.tokens, 999);

    let outcomes = vec![true, false, true];
    let r = aggregate("Purged on ", nodes, &outcomes);
    assert!(r.success);
    assert_eq!(r.purged_nodes.len(), 2);
    assert!(r.purged_nodes.contains(&"varnish-shield-1:80".to_string()));
    assert!(r.purged_nodes.contains(&"varnish-shield-3:80".to_string()));
    assert_eq!(r.message, "Purged on 2 nodes");
    assert!(r.message.contains("2"));
}

#[test]
fn test_ban_aggregate_message() {
    let reg = sample_registry();
    let mut bucket = TokenBucket::new(100, 1000);
    let tier = "edge".to_string();
    let nodes = plan_tier_op(&mut bucket, &reg, &tier).unwrap();
    let outcomes = vec![false, false, false];
    let r = aggregate("Banned on ", nodes, &outcomes);
    assert!(!r.success);
    assert!(r.purged_nodes.is_empty());
    assert_eq!(r.message, "Banned on 0 nodes");
}

#[test]
fn test_fanout_all_healthy() {
    let reg = sample_registry();
    let mut bucket = TokenBucket::new(100, 1000);
    let targets = plan_fanout(&mut bucket, &reg).unwrap();
    assert_eq!(targets.len(), 6);
    assert_eq!(bucket.tokens, 990);

    let outcomes = vec![true; 6];
    let r = aggregate_fanout("Fanout purge on ", &targets, &outcomes);
    assert!(r.success);
    assert_eq!(r.purged_nodes.len(), 6);
    for id in [
        "shield/varnish-shield-1:80",
        "shield/varnish-shield-2:80",
        "shield/varnish-shield-3:80",
        "edge/ats-edge-1:8080",
        "edge/ats-edge-2:8080",
        "edge/ats-edge-3:8080",
    ] {
        assert!(r.purged_nodes.contains(&id.to_string()));
    }
    assert_eq!(r.message, "Fanout purge on 6 nodes");
}

#[test]
fn test_fanout_rate_limited_before_any_target() {
    let reg = sample_registry();
    let mut bucket = TokenBucket::new(0, 5);
    let r = plan_fanout(&mut bucket, &reg);
    assert!(matches!(r, Err(PurgeError::RateLimited)));
    assert_eq!(bucket.tokens, 5);
}

#[test]
fn test_unknown_tier_returns_not_found() {
    let reg = sample_registry();
    let mut bucket = TokenBucket::new(100, 1000);
    let tier = "unknown".to_string();
    let r = plan_tier_op(&mut bucket, &reg, &tier);
    assert!(matches!(r, Err(PurgeError::TierNotFound)));
}

#[test]
fn test_unknown_tier_still_charged() {
    let reg = sample_registry();
    let mut known_bucket = TokenBucket::new(7, 50);
    let mut unknown_bucket = TokenBucket::new(7, 50);
    let known = "shield".to_string();
    let unknown = "unknown".to_string();
    assert!(plan_tier_op(&mut known_bucket, &reg, &known).is_ok());
    assert!(matches!(
        plan_tier_op(&mut unknown_bucket, &reg, &unknown),
        Err(PurgeError::TierNotFound)
    ));
    assert_eq!(known_bucket.tokens, unknown_bucket.tokens);
}

#[test]
fn test_rate_limited_before_existence_check() {
    let reg = sample_registry();
    let mut bucket = TokenBucket::new(0, 1);
    assert!(bucket.consume(1));
    let tier = "unknown".to_string();
    let r = plan_tier_op(&mut bucket, &reg, &tier);
    assert!(matches!(r, Err(PurgeError::RateLimited)));
}

#[test]
fn test_error_status_codes() {
    assert_eq!(PurgeError::RateLimited.status_code(), 429);
    assert_eq!(PurgeError::TierNotFound.status_code(), 404);
}

#[test]
fn test_empty_tier_succeeds_with_empty_result() {
    let mut reg = sample_registry();
    reg.insert("hollow".to_string(), Vec::new());
    let mut bucket = TokenBucket::new(100, 1000);
    let tier = "hollow".to_string();
    let nodes = plan_tier_op(&mut bucket, &reg, &tier).unwrap();
    assert!(nodes.is_empty());
    let r = aggregate("Purged on ", nodes, &Vec::new());
    assert!(!r.success);
    assert!(r.purged_nodes.is_empty());
    assert_eq!(r.message, "Purged on 0 nodes");
}

#[test]
fn test_identical_purges_are_independent() {
    let reg = sample_registry();
    let mut bucket = TokenBucket::new(0, 10);
    let tier = "shield".to_string();
    let outcomes = vec![true, true, true];

    let nodes = plan_tier_op(&mut bucket, &reg, &tier).unwrap();
    let first = aggregate("Purged on ", nodes, &outcomes);
    assert_eq!(bucket.tokens, 9);

    let nodes = plan_tier_op(&mut bucket, &reg, &tier).unwrap();
    let second = aggregate("Purged on ", nodes, &outcomes);
    assert_eq!(bucket.tokens, 8);

    assert!(first.success);
    assert!(second.success);
    assert_eq!(first.purged_nodes, second.purged_nodes);
    assert_eq!(first.message, second.message);
    assert_eq!(first.purged_nodes.len(), 3);
}

#[test]
fn test_registry_insert_replaces_nodes() {
    let mut reg = Registry::new();
    reg.insert("shield".to_string(), vec!["a:1".to_string()]);
    reg.insert("shield".to_string(), vec!["b:2".to_string()]);
    assert_eq!(reg.tier_count(), 1);
    let tier = "shield".to_string();
    assert_eq!(reg.resolve(&tier), Some(&vec!["b:2".to_string()]));
}

#[test]
fn test_registry_resolve_missing() {
    let reg = sample_registry();
    let tier = "origin".to_string();
    assert!(reg.resolve(&tier).is_none());
}

#[test]
fn test_effective_pattern_defaults_to_url() {
    let explicit = PurgeRequest {
        url: "http://example.com/a".to_string(),
        pattern: Some("/a/*".to_string()),
    };
    assert_eq!(explicit.effective_pattern(), "/a/*");

    let fallback = PurgeRequest {
        url: "http://example.com/a".to_string(),
        pattern: None,
    };
    assert_eq!(fallback.effective_pattern(), "http://example.com/a");
}

#[test]
fn test_dec_string_renders_decimal() {
    assert_eq!(dec_string(0), "0");
    assert_eq!(dec_string(7), "7");
    assert_eq!(dec_string(10), "10");
    assert_eq!(dec_string(42), "42");
    assert_eq!(dec_string(100), "100");
    assert_eq!(dec_string(12345), "12345");
}
