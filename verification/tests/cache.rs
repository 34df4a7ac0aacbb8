use substrate_egress::cache::{
    default_credential_cache, expired, CredentialCache, CredentialCacheKey,
    DEFAULT_CREDENTIAL_CACHE_CAPACITY, DEFAULT_CREDENTIAL_CACHE_TTL,
};

const SECOND: u128 = 1_000_000_000;
const NOW: u128 = 1_000_000 * SECOND;

fn key(actor: &str, uri: &str) -> CredentialCacheKey {
    CredentialCacheKey { actor_identity: actor.to_owned(), uri: uri.to_owned() }
}

#[test]
fn defaults_are_five_minutes_and_8192_entries() {
    assert_eq!(DEFAULT_CREDENTIAL_CACHE_TTL, 300 * SECOND);
    assert_eq!(DEFAULT_CREDENTIAL_CACHE_CAPACITY, 8192);
}

#[test]
fn credential_cache_reuses_fresh_entries_and_expires_stale_ones() {
    let mut cache = CredentialCache::new(16);
    let key = CredentialCacheKey {
        actor_identity: "spiffe://substrate-actor.local/actor/default/example".to_owned(),
        uri: "ate-secret://kubernetes.io/default/token".to_owned(),
    };
    let now = NOW;
    cache.insert(key.clone(), b"token".to_vec(), now);
    assert_eq!(cache.get(&key, now, DEFAULT_CREDENTIAL_CACHE_TTL), Some(b"token".to_vec()));

    let stale_at = now - DEFAULT_CREDENTIAL_CACHE_TTL - SECOND;
    cache.insert(key.clone(), b"stale".to_vec(), stale_at);
    assert_eq!(cache.get(&key, now, DEFAULT_CREDENTIAL_CACHE_TTL), None);
}

#[test]
fn credential_cache_is_partitioned_by_actor_identity_and_uri() {
    let mut cache = CredentialCache::new(16);
    let now = NOW;
    let key = CredentialCacheKey {
        actor_identity: "spiffe://substrate-actor.local/actor/default/one".to_owned(),
        uri: "ate-secret://kubernetes.io/default/token".to_owned(),
    };
    cache.insert(key.clone(), b"one".to_vec(), now);

    let another_actor = CredentialCacheKey {
        actor_identity: "spiffe://substrate-actor.local/actor/default/two".to_owned(),
        uri: key.uri.clone(),
    };
    let another_uri = CredentialCacheKey {
        actor_identity: key.actor_identity.clone(),
        uri: "ate-secret://kubernetes.io/default/other".to_owned(),
    };
    assert_eq!(cache.get(&another_actor, now, DEFAULT_CREDENTIAL_CACHE_TTL), None);
    assert_eq!(cache.get(&another_uri, now, DEFAULT_CREDENTIAL_CACHE_TTL), None);
    assert_eq!(cache.get(&key, now, DEFAULT_CREDENTIAL_CACHE_TTL), Some(b"one".to_vec()));
}

#[test]
fn an_entry_is_good_up_to_its_age_limit_and_dropped_behind_it() {
    let mut cache = default_credential_cache();
    let key = key("a", "u");
    cache.insert(key.clone(), b"token".to_vec(), NOW);
    assert_eq!(cache.get(&key, NOW + 10, 10), Some(b"token".to_vec()));
    assert_eq!(cache.get(&key, NOW + 11, 10), None);
    assert_eq!(cache.get(&key, NOW, 10), None);
}

#[test]
fn a_clock_that_reads_earlier_than_the_fetch_expires_nothing() {
    assert!(!expired(NOW, NOW - SECOND, 0));
    assert!(!expired(NOW, NOW, 0));
    assert!(expired(NOW, NOW + 1, 0));
    assert!(expired(0, u128::MAX, u128::MAX - 1));
    assert!(!expired(u128::MAX, 0, 0));
    let mut cache = CredentialCache::new(16);
    cache.insert(key("a", "u"), b"token".to_vec(), NOW);
    assert_eq!(cache.get(&key("a", "u"), NOW - SECOND, 0), Some(b"token".to_vec()));
}

#[test]
fn a_later_secret_replaces_an_earlier_one() {
    let mut cache = CredentialCache::new(16);
    cache.insert(key("a", "u"), b"first".to_vec(), NOW);
    cache.insert(key("a", "u"), b"second".to_vec(), NOW);
    assert_eq!(cache.get(&key("a", "u"), NOW, 0), Some(b"second".to_vec()));
}

#[test]
fn looking_up_twice_finds_the_same() {
    let mut cache = CredentialCache::new(16);
    assert_eq!(cache.get(&key("a", "u"), NOW, 0), None);
    assert_eq!(cache.get(&key("a", "u"), NOW, 0), None);
    cache.insert(key("a", "u"), b"token".to_vec(), NOW);
    assert_eq!(cache.get(&key("a", "u"), NOW, 0), Some(b"token".to_vec()));
    assert_eq!(cache.get(&key("a", "u"), NOW, 0), Some(b"token".to_vec()));
}

#[test]
fn as_many_entries_as_are_sure_to_fit_are_kept() {
    for (capacity, count) in [(16, 16), (32, 32), (33, 32), (8192, 32), (1, 1)] {
        let mut cache = CredentialCache::new(capacity);
        for i in 0..count {
            cache.insert(key("a", &format!("uri-{i}")), vec![i], NOW);
        }
        for i in 0..count {
            let found = cache.get(&key("a", &format!("uri-{i}")), NOW, 0);
            assert_eq!(found, Some(vec![i]), "{capacity} {i}");
        }
    }
}

#[test]
fn a_full_cache_hands_out_what_was_stored_or_nothing() {
    let mut cache = CredentialCache::new(8);
    for i in 0..200u8 {
        cache.insert(key("a", &format!("uri-{i}")), vec![i], NOW);
    }
    for i in 0..200u8 {
        let found = cache.get(&key("a", &format!("uri-{i}")), NOW, 0);
        assert!(found.is_none() || found == Some(vec![i]));
    }
    let mut cache = CredentialCache::new(0);
    cache.insert(key("a", "u"), b"token".to_vec(), NOW);
    let found = cache.get(&key("a", "u"), NOW, 0);
    assert!(found.is_none() || found == Some(b"token".to_vec()));
}
