use libvmod_lambda::aws_client::{
    client_settings, pooled_client_settings, CredentialSource, EnvironmentCredentials,
};
use libvmod_lambda::aws_client_pool::{
    candidate_indices, ClientPool, PooledClient, DEFAULT_POOL_SIZE,
};
use std::collections::HashSet;
use std::sync::atomic::{AtomicUsize, Ordering};

#[test]
fn test_power_of_two_indices() {
    // Verify that our index generation produces different values
    let counter = AtomicUsize::new(0);
    let len = 64usize;

    let mut pairs = Vec::new();
    for _ in 0..100 {
        let r = counter.fetch_add(1, Ordering::Relaxed);
        pairs.push(candidate_indices(r, len));
    }

    // Check that we get variety in our indices
    let unique_idx1: HashSet<_> = pairs.iter().map(|(a, _)| *a).collect();
    let unique_idx2: HashSet<_> = pairs.iter().map(|(_, b)| *b).collect();

    // idx1 is sequential mod 64, so with 100 samples we hit all 64 buckets
    assert_eq!(unique_idx1.len(), 64, "idx1 should cover all buckets");
    // idx2 uses Knuth hash, expect good distribution (at least 40 of 64 buckets)
    assert!(
        unique_idx2.len() >= 40,
        "idx2 should have good variety, got {}",
        unique_idx2.len()
    );
}

#[test]
fn test_indices_never_equal() {
    // Verify that idx1 and idx2 are never the same (our collision fix)
    let counter = AtomicUsize::new(0);
    let len = 64usize;

    for _ in 0..1000 {
        let r = counter.fetch_add(1, Ordering::Relaxed);
        let (idx1, idx2) = candidate_indices(r, len);
        assert_ne!(idx1, idx2, "idx1 and idx2 should never be equal");
    }
}

#[test]
fn indices_of_known_counters() {
    assert_eq!(candidate_indices(0, 64), (0, 1));
    assert_eq!(candidate_indices(1, 64), (1, 49));
    assert_eq!(candidate_indices(2, 64), (2, 34));
    assert_eq!(candidate_indices(63, 64), (63, 15));
    assert_eq!(candidate_indices(64, 64), (0, 1));
    assert_eq!(candidate_indices(3, 2), (1, 0));
    assert_eq!(candidate_indices(7, 1), (0, 0));
}

#[test]
fn second_indices_spread() {
    let second: HashSet<usize> = (0..DEFAULT_POOL_SIZE)
        .filter(|r| r % 4 != 0)
        .map(|r| candidate_indices(r, DEFAULT_POOL_SIZE).1)
        .collect();
    assert_eq!(second.len(), 48);
}

#[test]
fn a_pool_starts_idle() {
    let pool = ClientPool::new(vec!["a", "b", "c"]);
    assert_eq!(pool.len(), 3);
    assert!(!pool.is_empty());
    assert_eq!(pool.total_active(), 0);
    assert_eq!(*pool.first_client(), "a");
    assert_eq!(PooledClient::new("x").active_count(), 0);
    assert_eq!(DEFAULT_POOL_SIZE, 64);
}

#[test]
fn a_single_client_is_always_chosen() {
    let mut pool = ClientPool::new(vec![7u8]);
    let first = pool.acquire();
    let second = pool.acquire();
    assert_eq!(*first.client(&pool), 7);
    assert_eq!(*second.client(&pool), 7);
    assert_eq!(pool.total_active(), 2);
    pool.release(first);
    assert_eq!(pool.total_active(), 1);
    pool.release(second);
    assert_eq!(pool.total_active(), 0);
}

#[test]
fn the_less_loaded_client_is_chosen() {
    let mut pool = ClientPool::new(vec![0u8, 1]);
    // Both clients always stand to choice, so they fill up evenly
    let mut guards = Vec::new();
    let mut counts = [0usize; 2];
    for _ in 0..10 {
        let guard = pool.acquire();
        counts[*guard.client(&pool) as usize] += 1;
        assert!(counts[0].abs_diff(counts[1]) <= 1);
        guards.push(guard);
    }
    assert_eq!(counts, [5, 5]);
    assert_eq!(pool.total_active(), 10);
    for guard in guards {
        pool.release(guard);
    }
    assert_eq!(pool.total_active(), 0);
}

#[test]
fn requests_spread_over_a_pool() {
    let mut pool = ClientPool::new((0..DEFAULT_POOL_SIZE).collect());
    let mut used = HashSet::new();
    for _ in 0..DEFAULT_POOL_SIZE * 4 {
        let guard = pool.acquire();
        used.insert(*guard.client(&pool));
    }
    assert_eq!(used.len(), DEFAULT_POOL_SIZE);
    assert_eq!(pool.total_active(), DEFAULT_POOL_SIZE * 4);
}

fn environment(key: Option<&str>) -> EnvironmentCredentials {
    EnvironmentCredentials {
        access_key: key.map(String::from),
        secret_key: None,
        session_token: Some("token".to_string()),
    }
}

#[test]
fn a_custom_endpoint_takes_credentials_from_the_environment() {
    let settings = client_settings(
        "us-east-1".to_string(),
        Some("http://localhost:4566".to_string()),
        environment(Some("key")),
    );
    assert_eq!(settings.region, "us-east-1");
    assert_eq!(settings.endpoint_url.as_deref(), Some("http://localhost:4566"));
    assert_eq!(settings.max_attempts, None);
    match settings.credentials {
        CredentialSource::Fixed { access_key, secret_key, session_token, provider_name } => {
            assert_eq!(access_key, "key");
            assert_eq!(secret_key, "");
            assert_eq!(session_token.as_deref(), Some("token"));
            assert_eq!(provider_name, "custom-endpoint");
        }
        CredentialSource::Chain => panic!("expected fixed credentials"),
    }
}

#[test]
fn without_an_endpoint_the_credential_chain_stands() {
    let settings = client_settings("eu-west-1".to_string(), None, environment(Some("key")));
    assert!(matches!(settings.credentials, CredentialSource::Chain));
    assert_eq!(settings.endpoint_url, None);
}

#[test]
fn clients_of_a_pool_do_not_retry() {
    let settings = pooled_client_settings("eu-west-1".to_string(), None, environment(None));
    assert_eq!(settings.max_attempts, Some(1));
    assert!(matches!(settings.credentials, CredentialSource::Chain));
}
