//! The credential cache: secrets by actor identity and credential URI, each good for a limited
//! time.
//!
//! The cache is bounded and may drop an entry at any insertion, so what it promises is one-sided:
//! what a lookup hands out is what was last stored under that very key, and is not too old.
//!
//! Instants are nanoseconds on one monotonic clock of the caller's choice.

use vstd::prelude::*;

verus! {

/// Capacity of a cache made by `default_credential_cache`.
pub const DEFAULT_CREDENTIAL_CACHE_CAPACITY: usize = 8192;

/// How long a cached credential is served: five minutes, in nanoseconds.
pub const DEFAULT_CREDENTIAL_CACHE_TTL: u128 = 300_000_000_000;

/// The entries that a cache is sure to hold at once, if its capacity reaches that far.
pub const SURE_ENTRIES: usize = 32;

/// The entries of a cache: secret and time of fetching, by actor identity and URI.
pub type CacheEntries = Map<(Seq<char>, Seq<char>), (Seq<u8>, u128)>;

/// The concurrent cache of the `quick_cache` crate.
#[verifier::external_type_specification]
#[verifier::external_body]
#[verifier::reject_recursive_types(Key)]
#[verifier::reject_recursive_types(Val)]
#[verifier::reject_recursive_types(We)]
#[verifier::reject_recursive_types(B)]
#[verifier::reject_recursive_types(L)]
pub struct ExCache<Key, Val, We, B, L>(quick_cache::sync::Cache<Key, Val, We, B, L>);

/// The weighter of a cache that counts entries.
#[verifier::external_type_specification]
#[verifier::external_body]
pub struct ExUnitWeighter(quick_cache::UnitWeighter);

/// The hasher factory of a cache.
#[verifier::external_type_specification]
#[verifier::external_body]
pub struct ExDefaultHashBuilder(quick_cache::DefaultHashBuilder);

/// The eviction hooks of a cache.
#[verifier::external_type_specification]
#[verifier::external_body]
#[verifier::reject_recursive_types(Key)]
#[verifier::reject_recursive_types(Val)]
pub struct ExDefaultLifecycle<Key, Val>(quick_cache::sync::DefaultLifecycle<Key, Val>);

/// What a cache holds.
pub uninterp spec fn cache_entries(
    cache: quick_cache::sync::Cache<(String, String), (Vec<u8>, u128)>,
) -> Map<(Seq<char>, Seq<char>), (Seq<u8>, u128)>;

/// The capacity that a cache was made with.
pub uninterp spec fn cache_capacity(
    cache: quick_cache::sync::Cache<(String, String), (Vec<u8>, u128)>,
) -> nat;

/// Whether a credential fetched at `fetched_at` is too old at `now`. A clock that reads earlier
/// than the fetch counts as no time at all.
pub open spec fn is_expired(fetched_at: u128, now: u128, ttl: u128) -> bool {
    now - fetched_at > ttl
}

/// What a lookup at `now` finds.
pub open spec fn lookup(
    entries: CacheEntries,
    key: (Seq<char>, Seq<char>),
    now: u128,
    ttl: u128,
) -> Option<Seq<u8>> {
    if entries.contains_key(key) && !is_expired(entries[key].1, now, ttl) {
        Some(entries[key].0)
    } else {
        None
    }
}

/// What is left in the cache after a lookup at `now`: an entry found too old is dropped.
pub open spec fn after_lookup(
    entries: CacheEntries,
    key: (Seq<char>, Seq<char>),
    now: u128,
    ttl: u128,
) -> CacheEntries {
    if entries.contains_key(key) && is_expired(entries[key].1, now, ttl) {
        entries.remove(key)
    } else {
        entries
    }
}

/// Whether a cache of this capacity can store under `key` without dropping anything.
pub open spec fn has_room(
    entries: CacheEntries,
    capacity: nat,
    key: (Seq<char>, Seq<char>),
) -> bool {
    ||| entries.contains_key(key)
    ||| entries.dom().len() < capacity && entries.dom().len() < SURE_ENTRIES
}

/// How `value` gets stored under `key`: nothing else appears or changes, though entries may be
/// dropped; with room, `value` is in and nothing is dropped.
pub open spec fn stored(
    before: CacheEntries,
    capacity: nat,
    key: (Seq<char>, Seq<char>),
    value: (Seq<u8>, u128),
    after: CacheEntries,
) -> bool {
    &&& forall|k: (Seq<char>, Seq<char>)| #[trigger]
        after.contains_key(k) ==> if k == key {
            after[k] == value
        } else {
            before.contains_key(k) && after[k] == before[k]
        }
    &&& has_room(before, capacity, key) ==> after == before.insert(key, value)
}

/// Calls `quick_cache::sync::Cache::new`: an empty cache that remembers its capacity.
#[verifier::external_body]
fn new_cache(capacity: usize) -> (cache: quick_cache::sync::Cache<
    (String, String),
    (Vec<u8>, u128),
>)
    ensures
        cache_entries(cache) == CacheEntries::empty(),
        cache_capacity(cache) == capacity,
{
    quick_cache::sync::Cache::new(capacity)
}

/// Calls `quick_cache::sync::Cache::get`: a copy of what the cache holds under `key`, if anything.
#[verifier::external_body]
fn cached(
    cache: &quick_cache::sync::Cache<(String, String), (Vec<u8>, u128)>,
    key: &(String, String),
) -> (value: Option<(Vec<u8>, u128)>)
    ensures
        value is Some <==> cache_entries(*cache).contains_key((key.0@, key.1@)),
        value matches Some(v) ==> (v.0@, v.1) == cache_entries(*cache)[(key.0@, key.1@)],
{
    cache.get(key)
}

/// Calls `quick_cache::sync::Cache::remove_if` with the expiry test: the entry under `key` goes if
/// it is too old, and nothing else changes.
#[verifier::external_body]
fn remove_expired(
    cache: &mut quick_cache::sync::Cache<(String, String), (Vec<u8>, u128)>,
    key: &(String, String),
    now: u128,
    ttl: u128,
)
    ensures
        cache_entries(*final(cache)) == after_lookup(
            cache_entries(*old(cache)),
            (key.0@, key.1@),
            now,
            ttl,
        ),
        cache_capacity(*final(cache)) == cache_capacity(*old(cache)),
{
    cache.remove_if(key, |value| expired(value.1, now, ttl));
}

/// Calls `quick_cache::sync::Cache::insert`. The entry takes the place of an earlier one of its key.
/// Other entries may be dropped, and then so may this one; none is while the cache holds fewer than
/// its capacity and fewer than the thirty-two that its smallest shard takes. Which entries go beyond
/// that is left unsaid: it rests on the machine's processor count and on a hasher seeded at random.
#[verifier::external_body]
fn store(
    cache: &mut quick_cache::sync::Cache<(String, String), (Vec<u8>, u128)>,
    key: (String, String),
    value: (Vec<u8>, u128),
)
    ensures
        stored(
            cache_entries(*old(cache)),
            cache_capacity(*old(cache)),
            (key.0@, key.1@),
            (value.0@, value.1),
            cache_entries(*final(cache)),
        ),
        cache_capacity(*final(cache)) == cache_capacity(*old(cache)),
{
    cache.insert(key, value);
}

/// The expiry test.
pub fn expired(fetched_at: u128, now: u128, ttl: u128) -> (too_old: bool)
    ensures
        too_old == is_expired(fetched_at, now, ttl),
{
    now > fetched_at && now - fetched_at > ttl
}

/// Under which a credential is cached.
#[derive(Clone)]
pub struct CredentialCacheKey {
    /// SPIFFE ID of the actor that the credential was fetched for.
    pub actor_identity: String,
    /// URI of the credential.
    pub uri: String,
}

impl View for CredentialCacheKey {
    type V = (Seq<char>, Seq<char>);

    open spec fn view(&self) -> (Seq<char>, Seq<char>) {
        (self.actor_identity@, self.uri@)
    }
}

/// A bounded cache of credentials.
pub struct CredentialCache {
    entries: quick_cache::sync::Cache<(String, String), (Vec<u8>, u128)>,
}

impl View for CredentialCache {
    type V = CacheEntries;

    closed spec fn view(&self) -> CacheEntries {
        cache_entries(self.entries)
    }
}

impl CredentialCache {
    /// The capacity that the cache was made with.
    pub closed spec fn capacity(&self) -> nat {
        cache_capacity(self.entries)
    }

    /// An empty cache for about `capacity` credentials.
    pub fn new(capacity: usize) -> (cache: Self)
        ensures
            cache@ == CacheEntries::empty(),
            cache.capacity() == capacity,
    {
        CredentialCache { entries: new_cache(capacity) }
    }

    /// The secret cached under `key`, unless it is older than `ttl` at `now`; an entry found too old
    /// is dropped.
    pub fn get(&mut self, key: &CredentialCacheKey, now: u128, ttl: u128) -> (secret: Option<
        Vec<u8>,
    >)
        ensures
            secret is Some <==> lookup(old(self)@, key@, now, ttl) is Some,
            secret matches Some(s) ==> Some(s@) == lookup(old(self)@, key@, now, ttl),
            final(self)@ == after_lookup(old(self)@, key@, now, ttl),
            final(self).capacity() == old(self).capacity(),
    {
        let pair: (String, String) = (key.actor_identity.clone(), key.uri.clone());
        match cached(&self.entries, &pair) {
            Some(value) => {
                if !expired(value.1, now, ttl) {
                    return Some(value.0);
                }
                remove_expired(&mut self.entries, &pair, now, ttl);
                None
            },
            None => None,
        }
    }

    /// Caches `secret` under `key` as fetched at `now`.
    pub fn insert(&mut self, key: CredentialCacheKey, secret: Vec<u8>, now: u128)
        ensures
            stored(old(self)@, old(self).capacity(), key@, (secret@, now), final(self)@),
            final(self).capacity() == old(self).capacity(),
    {
        store(&mut self.entries, (key.actor_identity, key.uri), (secret, now));
    }
}

/// An empty cache of the default capacity.
pub fn default_credential_cache() -> (cache: CredentialCache)
    ensures
        cache@ == CacheEntries::empty(),
        cache.capacity() == DEFAULT_CREDENTIAL_CACHE_CAPACITY,
{
    CredentialCache::new(DEFAULT_CREDENTIAL_CACHE_CAPACITY)
}

/// A fresh entry is reused: what was stored with room is what a lookup finds while it is no older
/// than `ttl`.
pub proof fn law_fresh_entries_are_reused(
    before: CacheEntries,
    capacity: nat,
    key: (Seq<char>, Seq<char>),
    secret: Seq<u8>,
    fetched_at: u128,
    after: CacheEntries,
    now: u128,
    ttl: u128,
)
    requires
        stored(before, capacity, key, (secret, fetched_at), after),
        has_room(before, capacity, key),
        !is_expired(fetched_at, now, ttl),
    ensures
        lookup(after, key, now, ttl) == Some(secret),
        after_lookup(after, key, now, ttl) == after,
{
}

/// A lookup after storing finds that secret or none, and none once it is older than `ttl`; with or
/// without room.
pub proof fn law_stored_secret_or_none(
    before: CacheEntries,
    capacity: nat,
    key: (Seq<char>, Seq<char>),
    secret: Seq<u8>,
    fetched_at: u128,
    after: CacheEntries,
    now: u128,
    ttl: u128,
)
    requires
        stored(before, capacity, key, (secret, fetched_at), after),
    ensures
        lookup(after, key, now, ttl) is None || lookup(after, key, now, ttl) == Some(secret),
        is_expired(fetched_at, now, ttl) ==> lookup(after, key, now, ttl) is None,
        is_expired(fetched_at, now, ttl) ==> !after_lookup(after, key, now, ttl).contains_key(key),
{
}

/// The cache is partitioned by key: storing under one key never makes another key find a secret that
/// it did not find before.
pub proof fn law_keys_are_apart(
    before: CacheEntries,
    capacity: nat,
    key: (Seq<char>, Seq<char>),
    value: (Seq<u8>, u128),
    after: CacheEntries,
    other: (Seq<char>, Seq<char>),
    now: u128,
    ttl: u128,
)
    requires
        stored(before, capacity, key, value, after),
        other != key,
    ensures
        lookup(after, other, now, ttl) is None || lookup(after, other, now, ttl) == lookup(
            before,
            other,
            now,
            ttl,
        ),
        has_room(before, capacity, key) ==> lookup(after, other, now, ttl) == lookup(
            before,
            other,
            now,
            ttl,
        ),
{
}

/// Looking up is repeatable: a second lookup at the same time finds the same, and leaves the same.
pub proof fn law_lookup_is_repeatable(
    entries: CacheEntries,
    key: (Seq<char>, Seq<char>),
    now: u128,
    ttl: u128,
)
    ensures
        lookup(after_lookup(entries, key, now, ttl), key, now, ttl) == lookup(
            entries,
            key,
            now,
            ttl,
        ),
        after_lookup(after_lookup(entries, key, now, ttl), key, now, ttl) == after_lookup(
            entries,
            key,
            now,
            ttl,
        ),
{
}

/// A lookup finds what is stored under its key exactly while no more than `ttl` has passed since it was
/// fetched, however much more; and finds nothing under a key that nothing is stored under.
pub proof fn law_secrets_are_found_for_their_time(
    entries: CacheEntries,
    key: (Seq<char>, Seq<char>),
    now: u128,
    ttl: u128,
    secret: Seq<u8>,
)
    ensures
        lookup(entries, key, now, ttl) == Some(secret) <==> entries.contains_key(key)
            && entries[key].0 == secret && now <= entries[key].1 + ttl,
        lookup(entries, key, now, ttl) is None <==> !entries.contains_key(key) || now
            > entries[key].1 + ttl,
{
}

/// What is too old at one time is too old at every later time, and for every shorter limit.
pub proof fn law_too_old_stays_too_old(
    entries: CacheEntries,
    key: (Seq<char>, Seq<char>),
    now: u128,
    later: u128,
    ttl: u128,
    shorter: u128,
)
    requires
        lookup(entries, key, now, ttl) is None,
        now <= later,
        shorter <= ttl,
    ensures
        lookup(entries, key, later, shorter) is None,
{
}

/// A lookup drops the entry of its key once more than `ttl` has passed since it was fetched, and
/// nothing else.
pub proof fn law_lookups_drop_what_is_too_old(
    entries: CacheEntries,
    key: (Seq<char>, Seq<char>),
    now: u128,
    ttl: u128,
    other: (Seq<char>, Seq<char>),
)
    ensures
        after_lookup(entries, key, now, ttl).contains_key(other) <==> entries.contains_key(other)
            && (other == key ==> now <= entries[key].1 + ttl),
        after_lookup(entries, key, now, ttl).contains_key(other) ==> after_lookup(
            entries,
            key,
            now,
            ttl,
        )[other] == entries[other],
{
}

/// The expiry test compares times: a credential is too old exactly if more than `ttl` has passed since
/// it was fetched.
pub proof fn law_expiry_goes_by_age(fetched_at: u128, now: u128, ttl: u128, too_old: bool)
    requires
        call_ensures(expired, (fetched_at, now, ttl), too_old),
    ensures
        too_old <==> now > fetched_at + ttl,
{
}

/// A new cache holds nothing.
pub proof fn law_new_caches_are_empty(capacity: usize, cache: CredentialCache)
    requires
        call_ensures(CredentialCache::new, (capacity,), cache),
    ensures
        forall|key: (Seq<char>, Seq<char>)| !(#[trigger] cache@.contains_key(key)),
        cache@.dom().len() == 0,
        cache.capacity() == capacity,
{
}

/// The default cache holds nothing, and has room for 8192 entries.
pub proof fn law_default_cache(cache: CredentialCache)
    requires
        call_ensures(default_credential_cache, (), cache),
    ensures
        forall|key: (Seq<char>, Seq<char>)| !(#[trigger] cache@.contains_key(key)),
        cache@.dom().len() == 0,
        cache.capacity() == 8192,
{
}

/// `get` hands out the very secret that is cached for this actor and URI, exactly while no more than
/// `ttl` has passed since it was fetched; else it drops the entry. It touches no other entry.
pub proof fn law_get_serves_what_is_not_too_old(
    key: CredentialCacheKey,
    now: u128,
    ttl: u128,
    secret: Option<Vec<u8>>,
)
    ensures
        forall|cache: &mut CredentialCache| #[trigger]
            call_ensures(CredentialCache::get, (cache, &key, now, ttl), secret) ==> {
                let k = (key.actor_identity@, key.uri@);
                let fresh = cache@.contains_key(k) && now <= cache@[k].1 + ttl;
                &&& secret is Some <==> fresh
                &&& fresh ==> secret->Some_0@ == cache@[k].0
                &&& fresh ==> final(cache)@ == cache@
                &&& !fresh ==> final(cache)@ == cache@.remove(k)
                &&& final(cache).capacity() == cache.capacity()
            },
{
    assert forall|cache: &mut CredentialCache| #[trigger]
        call_ensures(CredentialCache::get, (cache, &key, now, ttl), secret) implies {
        let k = (key.actor_identity@, key.uri@);
        let fresh = cache@.contains_key(k) && now <= cache@[k].1 + ttl;
        &&& secret is Some <==> fresh
        &&& fresh ==> secret->Some_0@ == cache@[k].0
        &&& fresh ==> final(cache)@ == cache@
        &&& !fresh ==> final(cache)@ == cache@.remove(k)
        &&& final(cache).capacity() == cache.capacity()
    } by {
        let k = (key.actor_identity@, key.uri@);
        if !cache@.contains_key(k) {
            assert(cache@.remove(k) == cache@);
        }
    }
}

/// `insert` puts the whole secret under this actor and URI, with its time. Nothing else appears or
/// changes. While the cache holds fewer entries than its capacity and fewer than thirty-two, or has one
/// under that key, the secret is sure to be there afterwards, and so is all that was there before.
pub proof fn law_insert_stores_under_its_key(key: CredentialCacheKey, secret: Vec<u8>, now: u128)
    ensures
        forall|cache: &mut CredentialCache| #[trigger]
            call_ensures(CredentialCache::insert, (cache, key, secret, now), ()) ==> {
                let k = (key.actor_identity@, key.uri@);
                let count = cache@.dom().len();
                &&& final(cache)@.contains_key(k) ==> final(cache)@[k] == (secret@, now)
                &&& forall|other: (Seq<char>, Seq<char>)| #[trigger]
                    final(cache)@.contains_key(other) && other != k ==> cache@.contains_key(other)
                        && final(cache)@[other] == cache@[other]
                &&& cache@.contains_key(k) || (count < cache.capacity() && count < 32)
                    ==> final(cache)@ == cache@.insert(k, (secret@, now))
                &&& final(cache).capacity() == cache.capacity()
            },
{
}

/// What a read gives back of a write. With room, `get` after `insert` hands out the secret that was
/// inserted, byte for byte, as long as no more than `ttl` has passed; with or without room it hands out
/// that secret or none, and none once more than `ttl` has passed.
pub proof fn law_get_gives_back_what_insert_stored(
    key: CredentialCacheKey,
    secret: Vec<u8>,
    fetched_at: u128,
    same_key: CredentialCacheKey,
    now: u128,
    ttl: u128,
    found: Option<Vec<u8>>,
)
    requires
        same_key.actor_identity@ == key.actor_identity@,
        same_key.uri@ == key.uri@,
    ensures
        forall|cache: &mut CredentialCache, again: &mut CredentialCache|
            {
                &&& #[trigger] call_ensures(
                    CredentialCache::insert,
                    (cache, key, secret, fetched_at),
                    (),
                )
                &&& *again == *final(cache)
                &&& #[trigger] call_ensures(
                    CredentialCache::get,
                    (again, &same_key, now, ttl),
                    found,
                )
            } ==> {
                let count = cache@.dom().len();
                &&& found matches Some(f) ==> f@ == secret@ && now <= fetched_at + ttl
                &&& count < cache.capacity() && count < 32 && now <= fetched_at + ttl ==> (
                found matches Some(f) && f@ == secret@)
            },
{
}

} // verus!
