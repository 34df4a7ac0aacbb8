//! The egress decision for one request.
//!
//! The caller does the talking and reads the clock; each method here takes what came in and says what
//! to do next:
//!
//! 1. `apply` names the actor whose policy to ask the control plane for.
//! 2. `policy_received` finds the rule to follow, and says which secret its first effect needs.
//! 3. `look_up_secret` looks for that secret in the cache, by the time it is then.
//! 4. If it is not there, the caller fetches it, and `secret_received` caches it, by the time it is
//!    then.
//!
//! Each of the last two sets the header that the secret was for, and says which secret the next effect
//! needs. Every access to the cache has a reading of the clock of its own, in nanoseconds.

use vstd::prelude::*;

use crate::cache::{
    after_lookup, default_credential_cache, has_room, is_expired, lookup, stored, CacheEntries,
    CredentialCache, CredentialCacheKey, DEFAULT_CREDENTIAL_CACHE_CAPACITY,
    DEFAULT_CREDENTIAL_CACHE_TTL,
};
use crate::credential::{
    actor_spiffe_id, actor_spiffe_uri, credential_header, credential_provider_error,
    credential_secret, header_of, is_protected, provider_failure, provider_name, provider_of,
    secret_in, without_line_end, CredentialHeader,
};
use crate::error::{
    answer_failed_call, denied, denied_with, failed_call, ProxyError, Refusal, Status,
};
use crate::headers::{
    header_entries, insert_header, is_header_name, is_header_value, lemma_lowercase_name, lowercase,
    HeaderEntries, SURE_ROOM,
};
use crate::policy::{
    law_first_matching_rule_wins, law_no_matching_rule_denies, matching_rule, policy_decision,
    rule_decision, rules_decision, CredentialHeaderInjection, DestinationContext, EgressPolicy,
    EgressRule,
};
use crate::request::{copy_text, text_of, ActorIdentity, ActorRef, Request, RequestLog};
use crate::text::same_text;

verus! {

/// A provider of secrets, chosen by the authority of a credential URI.
#[derive(Clone, Debug)]
pub struct CredentialProvider<B> {
    /// The exact authority of the URIs that the provider handles, such as `kubernetes.io`.
    pub uri_authority: String,
    /// The backend that resolves credentials, and how to connect to it.
    pub target: B,
}

/// Retrieves and enforces the current egress policy for each request.
pub struct SubstrateEgress<B> {
    /// The control plane, and how to connect to it.
    pub target: B,
    /// The providers that rules can take secrets from.
    pub credential_providers: Vec<CredentialProvider<B>>,
    /// The secrets that were fetched lately.
    pub credential_cache: CredentialCache,
}

/// A secret that a request needs before it can go on.
pub struct PendingSecret {
    /// SPIFFE ID of the actor that the secret is for.
    pub actor_spiffe_id: String,
    /// The provider that has it, by its place among the providers.
    pub provider: usize,
    /// The headers that the request is to get.
    pub injections: Vec<CredentialHeaderInjection>,
    /// The one that needs the secret; those before it are set.
    pub index: usize,
}

/// What to do next with a request.
pub enum Step {
    /// Send it on.
    Proceed,
    /// Read the clock, and look a secret up.
    LookUpSecret(PendingSecret),
    /// Fetch a secret, which is not cached.
    FetchSecret(PendingSecret),
    /// Refuse it.
    Refused(ProxyError),
    /// Give it up: its header map can take no more names.
    HeadersFull,
}

impl PendingSecret {
    /// Whether there is a header that the secret is for.
    pub open spec fn wf(&self) -> bool {
        self.index < self.injections.len()
    }

    /// Whether the secret is for this actor and one of these injections.
    pub open spec fn is_for(
        &self,
        actor: Seq<char>,
        injections: Seq<CredentialHeaderInjection>,
    ) -> bool {
        &&& self.wf()
        &&& self.injections@ == injections
        &&& self.actor_spiffe_id@ == actor
    }

    /// The URI of the secret.
    pub fn uri(&self) -> (uri: &str)
        requires
            self.wf(),
        ensures
            uri@ == self.injections[self.index as int].credential_uri@,
    {
        self.injections[self.index].credential_uri.as_str()
    }
}

/// What the effects of a rule depend on besides headers, cache and time.
pub struct Setting {
    /// The authorities of the providers, in order.
    pub authorities: Seq<Seq<char>>,
    /// The SPIFFE ID of the actor.
    pub actor: Seq<char>,
}

/// How far a request is.
pub enum Stage {
    /// All headers are set.
    Complete,
    /// The secret of the injection `index` is to be looked up, or else asked of `provider`.
    LookUp { index: int, provider: int },
    /// The secret of the injection `index` is to be asked of `provider`.
    Fetch { index: int, provider: int },
    /// It is refused.
    Refused(Refusal),
    /// Its header map can take no more names.
    Full,
}

/// A request at one moment.
pub struct Moment {
    /// Its headers.
    pub headers: HeaderEntries,
    /// How far it is.
    pub stage: Stage,
}

/// What takes a request from one moment to the next.
pub enum Event {
    /// A secret is looked up at a time, in a cache that holds these entries.
    LookUp { cache: CacheEntries, now: u128 },
    /// A provider replies.
    Reply { reply: Result<Vec<u8>, Status> },
}

impl Step {
    /// How far a request is that this is the next step of.
    pub open spec fn stage(&self) -> Stage {
        match self {
            Step::Proceed => Stage::Complete,
            Step::LookUpSecret(pending) => Stage::LookUp {
                index: pending.index as int,
                provider: pending.provider as int,
            },
            Step::FetchSecret(pending) => Stage::Fetch {
                index: pending.index as int,
                provider: pending.provider as int,
            },
            Step::Refused(error) => Stage::Refused(error@),
            Step::HeadersFull => Stage::Full,
        }
    }

    /// Whether a secret that the step asks for is for this actor and one of these injections.
    pub open spec fn is_for(
        &self,
        actor: Seq<char>,
        injections: Seq<CredentialHeaderInjection>,
    ) -> bool {
        match self {
            Step::LookUpSecret(pending) => pending.is_for(actor, injections),
            Step::FetchSecret(pending) => pending.is_for(actor, injections),
            _ => true,
        }
    }
}

/// The first of the authorities from `i` on that is `name`.
pub open spec fn first_authority(authorities: Seq<Seq<char>>, name: Seq<char>, i: int) -> Option<int>
    decreases authorities.len() - i,
{
    if i < 0 || i >= authorities.len() {
        None
    } else if authorities[i] == name {
        Some(i)
    } else {
        first_authority(authorities, name, i + 1)
    }
}

/// The provider that handles a credential URI.
pub open spec fn provider_for(authorities: Seq<Seq<char>>, uri: Seq<char>) -> Result<int, Refusal> {
    match provider_of(uri) {
        Some(name) => match first_authority(authorities, name, 0) {
            Some(i) => Ok(i),
            None => Err(Refusal::Denied("no credential provider configured for "@ + name)),
        },
        None => Err(Refusal::Denied("invalid credential URI: "@ + uri)),
    }
}

/// How far a request is that has all headers before `index`.
pub open spec fn stage_at(
    setting: Setting,
    injections: Seq<CredentialHeaderInjection>,
    index: int,
) -> Stage {
    if index >= injections.len() {
        Stage::Complete
    } else {
        match provider_for(setting.authorities, injections[index].credential_uri@) {
            Ok(provider) => Stage::LookUp { index, provider },
            Err(refusal) => Stage::Refused(refusal),
        }
    }
}

/// `headers` with `name` set to the one sensitive value `value`.
pub open spec fn with_header(
    headers: HeaderEntries,
    name: Seq<char>,
    value: Seq<u8>,
) -> HeaderEntries {
    headers.insert(name, seq![(value, true)])
}

/// The headers that a rule sets.
pub open spec fn injections_of(rule: EgressRule) -> Seq<CredentialHeaderInjection> {
    match rule.hostnames {
        Some(hostnames) => match hostnames.effects {
            Some(effects) => effects.inject_static_headers@,
            None => Seq::empty(),
        },
        None => Seq::empty(),
    }
}

/// The headers that the policy in a reply sets on a request to `destination`.
pub open spec fn policy_injections(
    reply: Result<EgressPolicy, Status>,
    destination: Option<DestinationContext>,
) -> Result<Seq<CredentialHeaderInjection>, Refusal> {
    match reply {
        Ok(policy) => match policy_decision(policy, destination) {
            Ok(i) => Ok(injections_of(policy.rules[i])),
            Err(refusal) => Err(refusal),
        },
        Err(status) => Err(
            failed_call(
                status.is_outage(),
                status.text(),
                "actor egress policy unavailable: "@,
                "actor egress policy denied: "@,
            ),
        ),
    }
}

/// Whether `after` is what comes of having `secret` for the injection `index`: its header is set, and
/// the next one is due. Only a map of many names may have no room for it.
pub open spec fn secret_used(
    setting: Setting,
    injections: Seq<CredentialHeaderInjection>,
    index: int,
    secret: Seq<u8>,
    headers: HeaderEntries,
    after: Moment,
) -> bool {
    match header_of(injections[index], secret) {
        Ok((name, value, _)) => {
            ||| {
                &&& after.headers == with_header(headers, name, value)
                &&& after.stage == stage_at(setting, injections, index + 1)
            }
            ||| {
                &&& after.headers == headers
                &&& after.stage is Full
                &&& headers.dom().len() > SURE_ROOM
            }
        },
        Err(refusal) => after == (Moment { headers, stage: Stage::Refused(refusal) }),
    }
}

/// Whether an event takes a request from one moment to another.
pub open spec fn follows(
    setting: Setting,
    injections: Seq<CredentialHeaderInjection>,
    event: Event,
    before: Moment,
    after: Moment,
) -> bool {
    match (event, before.stage) {
        (Event::LookUp { cache, now }, Stage::LookUp { index, provider }) => {
            let key = (setting.actor, injections[index].credential_uri@);
            match lookup(cache, key, now, DEFAULT_CREDENTIAL_CACHE_TTL) {
                Some(secret) => secret_used(
                    setting,
                    injections,
                    index,
                    secret,
                    before.headers,
                    after,
                ),
                None => after == (Moment {
                    headers: before.headers,
                    stage: Stage::Fetch { index, provider },
                }),
            }
        },
        (Event::Reply { reply: Ok(returned) }, Stage::Fetch { index, .. }) => match secret_in(
            returned@,
        ) {
            Ok(secret) => secret_used(setting, injections, index, secret, before.headers, after),
            Err(refusal) => after == (Moment {
                headers: before.headers,
                stage: Stage::Refused(refusal),
            }),
        },
        (Event::Reply { reply: Err(status) }, Stage::Fetch { index, .. }) => after == (Moment {
            headers: before.headers,
            stage: Stage::Refused(provider_failure(injections[index].credential_uri@, status)),
        }),
        _ => false,
    }
}

/// Whether a cache goes from `before` to `after` when a provider replies at `now`: a usable secret is
/// stored, and anything else leaves the cache as it was.
pub open spec fn reply_cached(
    before: CacheEntries,
    capacity: nat,
    key: (Seq<char>, Seq<char>),
    reply: Result<Vec<u8>, Status>,
    now: u128,
    after: CacheEntries,
) -> bool {
    match reply {
        Ok(returned) => match secret_in(returned@) {
            Ok(secret) => stored(before, capacity, key, (secret, now), after),
            Err(_) => after == before,
        },
        Err(_) => after == before,
    }
}

/// A copy of a list of injections.
fn copy_injections(injections: &Vec<CredentialHeaderInjection>) -> (copy: Vec<
    CredentialHeaderInjection,
>)
    ensures
        copy@ == injections@,
{
    let mut copy: Vec<CredentialHeaderInjection> = Vec::new();
    let mut i: usize = 0;
    while i < injections.len()
        invariant
            i <= injections.len(),
            copy@ == injections@.take(i as int),
        decreases injections.len() - i,
    {
        let injection = &injections[i];
        copy.push(
            CredentialHeaderInjection {
                header: injection.header.clone(),
                prefix: injection.prefix.clone(),
                credential_uri: injection.credential_uri.clone(),
            },
        );
        i += 1;
    }
    copy
}

/// Sets a credential header on a request, in place of all values that it had.
fn set_credential_header(
    headers: &mut http::HeaderMap<http::HeaderValue>,
    header: &CredentialHeader,
) -> (taken: bool)
    requires
        is_header_name(header.name@),
        lowercase(header.name@) == header.name@,
        is_header_value(header.value@),
        header.sensitive,
    ensures
        taken ==> header_entries(*final(headers)) == with_header(
            header_entries(*old(headers)),
            header.name@,
            header.value@,
        ),
        !taken ==> header_entries(*final(headers)) == header_entries(*old(headers)),
        !taken ==> header_entries(*final(headers)).dom().len() > SURE_ROOM,
{
    insert_header(headers, header.name.as_str(), header.value.as_slice(), header.sensitive)
}

impl<B> SubstrateEgress<B> {
    /// A policy with these providers and an empty cache.
    pub fn new(target: B, credential_providers: Vec<CredentialProvider<B>>) -> (egress: Self)
        ensures
            egress.target == target,
            egress.credential_providers == credential_providers,
            egress.credential_cache@ == CacheEntries::empty(),
            egress.credential_cache.capacity() == DEFAULT_CREDENTIAL_CACHE_CAPACITY,
    {
        SubstrateEgress {
            target,
            credential_providers,
            credential_cache: default_credential_cache(),
        }
    }

    /// The authorities of the providers, in order.
    pub open spec fn authorities(&self) -> Seq<Seq<char>> {
        self.credential_providers@.map_values(|p: CredentialProvider<B>| p.uri_authority@)
    }

    /// The setting for an actor.
    pub open spec fn setting(&self, actor: Seq<char>) -> Setting {
        Setting { authorities: self.authorities(), actor }
    }

    /// Whether nothing but the contents of the cache changed.
    pub open spec fn same_configuration(&self, other: &Self) -> bool {
        &&& self.target == other.target
        &&& self.credential_providers == other.credential_providers
        &&& self.credential_cache.capacity() == other.credential_cache.capacity()
    }

    /// The place of the provider that handles a credential URI.
    fn find_provider(&self, uri: &str) -> (provider: Result<usize, ProxyError>)
        ensures
            match provider {
                Ok(p) => p < self.credential_providers.len() && provider_for(
                    self.authorities(),
                    uri@,
                ) == Ok::<int, Refusal>(p as int),
                Err(error) => provider_for(self.authorities(), uri@) == Err::<int, Refusal>(error@),
            },
    {
        let name = match provider_name(uri) {
            Some(name) => name,
            None => {
                return Err(denied_with("invalid credential URI: ", uri));
            },
        };
        let mut i: usize = 0;
        while i < self.credential_providers.len()
            invariant
                i <= self.credential_providers.len(),
                provider_of(uri@) == Some(name@),
                first_authority(self.authorities(), name@, 0) == first_authority(
                    self.authorities(),
                    name@,
                    i as int,
                ),
            decreases self.credential_providers.len() - i,
        {
            if same_text(self.credential_providers[i].uri_authority.as_str(), name) {
                return Ok(i);
            }
            i += 1;
        }
        Err(denied_with("no credential provider configured for ", name))
    }

    /// The provider that handles a credential URI.
    pub fn provider_for_uri(&self, uri: &str) -> (provider: Result<
        &CredentialProvider<B>,
        ProxyError,
    >)
        ensures
            match provider {
                Ok(p) => provider_for(self.authorities(), uri@) is Ok && *p
                    == self.credential_providers[provider_for(self.authorities(), uri@)->Ok_0],
                Err(error) => provider_for(self.authorities(), uri@) == Err::<int, Refusal>(error@),
            },
    {
        let i: usize = self.find_provider(uri)?;
        Ok(&self.credential_providers[i])
    }

    /// The secret of a credential URI for an actor, as far as it is cached.
    fn credential(&mut self, actor: &str, uri: &str, now: u128) -> (secret: Option<Vec<u8>>)
        ensures
            match secret {
                Some(s) => lookup(
                    old(self).credential_cache@,
                    (actor@, uri@),
                    now,
                    DEFAULT_CREDENTIAL_CACHE_TTL,
                ) == Some(s@),
                None => lookup(
                    old(self).credential_cache@,
                    (actor@, uri@),
                    now,
                    DEFAULT_CREDENTIAL_CACHE_TTL,
                ) is None,
            },
            final(self).credential_cache@ == after_lookup(
                old(self).credential_cache@,
                (actor@, uri@),
                now,
                DEFAULT_CREDENTIAL_CACHE_TTL,
            ),
            final(self).same_configuration(old(self)),
    {
        let key = CredentialCacheKey { actor_identity: actor.to_owned(), uri: uri.to_owned() };
        self.credential_cache.get(&key, now, DEFAULT_CREDENTIAL_CACHE_TTL)
    }

    /// What to do next with a request that has all headers before `index`.
    fn step_at(&self, actor: String, injections: Vec<CredentialHeaderInjection>, index: usize) -> (step:
        Step)
        ensures
            step.stage() == stage_at(self.setting(actor@), injections@, index as int),
            step.is_for(actor@, injections@),
    {
        if index >= injections.len() {
            return Step::Proceed;
        }
        match self.find_provider(injections[index].credential_uri.as_str()) {
            Ok(provider) => Step::LookUpSecret(
                PendingSecret { actor_spiffe_id: actor, provider, injections, index },
            ),
            Err(error) => Step::Refused(error),
        }
    }

    /// Sets the header that a secret was pending for.
    fn use_secret(
        &self,
        pending: PendingSecret,
        secret: Vec<u8>,
        headers: &mut http::HeaderMap<http::HeaderValue>,
    ) -> (step: Step)
        requires
            pending.wf(),
        ensures
            secret_used(
                self.setting(pending.actor_spiffe_id@),
                pending.injections@,
                pending.index as int,
                secret@,
                header_entries(*old(headers)),
                Moment { headers: header_entries(*final(headers)), stage: step.stage() },
            ),
            step.is_for(pending.actor_spiffe_id@, pending.injections@),
    {
        let header: CredentialHeader = match credential_header(
            &pending.injections[pending.index],
            secret,
        ) {
            Ok(header) => header,
            Err(error) => {
                return Step::Refused(error);
            },
        };
        proof {
            lemma_lowercase_name(pending.injections[pending.index as int].header@);
        }
        if !set_credential_header(headers, &header) {
            return Step::HeadersFull;
        }
        self.step_at(pending.actor_spiffe_id, pending.injections, pending.index + 1)
    }

    /// Starts on the effects of the rule that lets a request through.
    pub fn apply_effects(&self, identity: &ActorIdentity, rule: &EgressRule) -> (step: Step)
        ensures
            ({
                let actor = actor_spiffe_id(identity.atespace@, identity.actor_name@);
                &&& step.stage() == stage_at(self.setting(actor), injections_of(*rule), 0)
                &&& step.is_for(actor, injections_of(*rule))
            }),
    {
        let injections: Vec<CredentialHeaderInjection> = match &rule.hostnames {
            Some(hostnames) => match &hostnames.effects {
                Some(effects) => copy_injections(&effects.inject_static_headers),
                None => Vec::new(),
            },
            None => Vec::new(),
        };
        let actor: String = actor_spiffe_uri(
            identity.atespace.as_str(),
            identity.actor_name.as_str(),
        );
        self.step_at(actor, injections, 0)
    }

    /// Starts on a request: logs its actor, and names the actor whose policy to ask for.
    pub fn apply(&self, log: &mut RequestLog, req: &Request) -> (actor: Result<ActorRef, ProxyError>)
        ensures
            match req.actor_identity {
                Some(identity) => {
                    &&& actor matches Ok(a) && a@ == (identity.atespace@, identity.actor_name@)
                    &&& final(log)@ == (
                        Some(identity.actor_name@),
                        text_of(identity.actor_uid),
                        Some(identity.atespace@),
                    )
                },
                None => {
                    &&& actor matches Err(error) && error@ == Refusal::Denied(
                        "missing CONNECT-authorized actor identity"@,
                    )
                    &&& *final(log) == *old(log)
                },
            },
    {
        match &req.actor_identity {
            Some(identity) => {
                log.ate_actor_name = Some(identity.actor_name.clone());
                log.ate_actor_uid = copy_text(&identity.actor_uid);
                log.ate_atespace = Some(identity.atespace.clone());
                Ok(
                    ActorRef {
                        atespace: identity.atespace.clone(),
                        name: identity.actor_name.clone(),
                    },
                )
            },
            None => Err(denied("missing CONNECT-authorized actor identity")),
        }
    }

    /// Goes on with the control plane's reply: finds the rule to follow, and starts on its effects.
    pub fn policy_received(&self, reply: Result<EgressPolicy, Status>, req: &Request) -> (step: Step)
        ensures
            match (req.actor_identity, policy_injections(reply, req.destination)) {
                (Some(identity), Ok(injections)) => {
                    let actor = actor_spiffe_id(identity.atespace@, identity.actor_name@);
                    &&& step.stage() == stage_at(self.setting(actor), injections, 0)
                    &&& step.is_for(actor, injections)
                },
                (Some(_), Err(refusal)) => step.stage() == Stage::Refused(refusal),
                (None, _) => step.stage() == Stage::Refused(
                    Refusal::Denied("missing CONNECT-authorized actor identity"@),
                ),
            },
    {
        let identity = match &req.actor_identity {
            Some(identity) => identity,
            None => {
                return Step::Refused(denied("missing CONNECT-authorized actor identity"));
            },
        };
        let policy = match reply {
            Ok(policy) => policy,
            Err(status) => {
                return Step::Refused(
                    answer_failed_call(
                        status.outage(),
                        status.to_text().as_str(),
                        "actor egress policy unavailable: ",
                        "actor egress policy denied: ",
                    ),
                );
            },
        };
        match matching_rule(&policy, req) {
            Ok(rule) => self.apply_effects(identity, rule),
            Err(error) => Step::Refused(error),
        }
    }

    /// Looks a pending secret up at `now`: where it is cached, its header is set.
    pub fn look_up_secret(
        &mut self,
        pending: PendingSecret,
        req: &mut Request,
        now: u128,
    ) -> (step: Step)
        requires
            pending.wf(),
        ensures
            follows(
                old(self).setting(pending.actor_spiffe_id@),
                pending.injections@,
                Event::LookUp { cache: old(self).credential_cache@, now },
                Moment {
                    headers: header_entries(old(req).headers),
                    stage: Step::LookUpSecret(pending).stage(),
                },
                Moment { headers: header_entries(final(req).headers), stage: step.stage() },
            ),
            step.is_for(pending.actor_spiffe_id@, pending.injections@),
            final(self).credential_cache@ == after_lookup(
                old(self).credential_cache@,
                (
                    pending.actor_spiffe_id@,
                    pending.injections[pending.index as int].credential_uri@,
                ),
                now,
                DEFAULT_CREDENTIAL_CACHE_TTL,
            ),
            final(self).same_configuration(old(self)),
            *final(req) == (Request { headers: final(req).headers, ..*old(req) }),
    {
        match self.credential(pending.actor_spiffe_id.as_str(), pending.uri(), now) {
            Some(secret) => self.use_secret(pending, secret, &mut req.headers),
            None => Step::FetchSecret(pending),
        }
    }

    /// The secret in a provider's reply, which is cached.
    fn credential_received(
        &mut self,
        actor: &str,
        uri: &str,
        reply: Result<Vec<u8>, Status>,
        now: u128,
    ) -> (secret: Result<Vec<u8>, ProxyError>)
        ensures
            match secret {
                Ok(s) => reply matches Ok(returned) && secret_in(returned@) == Ok::<
                    Seq<u8>,
                    Refusal,
                >(s@) && stored(
                    old(self).credential_cache@,
                    old(self).credential_cache.capacity(),
                    (actor@, uri@),
                    (s@, now),
                    final(self).credential_cache@,
                ),
                Err(error) => *final(self) == *old(self) && match reply {
                    Ok(returned) => secret_in(returned@) == Err::<Seq<u8>, Refusal>(error@),
                    Err(status) => error@ == provider_failure(uri@, status),
                },
            },
            final(self).same_configuration(old(self)),
    {
        let returned: Vec<u8> = match reply {
            Ok(returned) => returned,
            Err(status) => {
                return Err(credential_provider_error(uri, &status));
            },
        };
        let secret: Vec<u8> = credential_secret(returned)?;
        let key = CredentialCacheKey { actor_identity: actor.to_owned(), uri: uri.to_owned() };
        self.credential_cache.insert(key, secret.clone(), now);
        Ok(secret)
    }

    /// Goes on with a provider's reply at `now`: caches the secret, and sets its header.
    pub fn secret_received(
        &mut self,
        pending: PendingSecret,
        reply: Result<Vec<u8>, Status>,
        req: &mut Request,
        now: u128,
    ) -> (step: Step)
        requires
            pending.wf(),
        ensures
            follows(
                old(self).setting(pending.actor_spiffe_id@),
                pending.injections@,
                Event::Reply { reply },
                Moment {
                    headers: header_entries(old(req).headers),
                    stage: Step::FetchSecret(pending).stage(),
                },
                Moment { headers: header_entries(final(req).headers), stage: step.stage() },
            ),
            step.is_for(pending.actor_spiffe_id@, pending.injections@),
            reply_cached(
                old(self).credential_cache@,
                old(self).credential_cache.capacity(),
                (
                    pending.actor_spiffe_id@,
                    pending.injections[pending.index as int].credential_uri@,
                ),
                reply,
                now,
                final(self).credential_cache@,
            ),
            final(self).same_configuration(old(self)),
            *final(req) == (Request { headers: final(req).headers, ..*old(req) }),
    {
        match self.credential_received(
            pending.actor_spiffe_id.as_str(),
            pending.uri(),
            reply,
            now,
        ) {
            Ok(secret) => self.use_secret(pending, secret, &mut req.headers),
            Err(error) => Step::Refused(error),
        }
    }
}

proof fn lemma_first_authority(authorities: Seq<Seq<char>>, name: Seq<char>, i: int)
    requires
        0 <= i,
    ensures
        first_authority(authorities, name, i) matches Some(p) ==> i <= p < authorities.len()
            && authorities[p] == name && forall|q: int| i <= q < p ==> authorities[q] != name,
        first_authority(authorities, name, i) is None ==> forall|q: int|
            i <= q < authorities.len() ==> authorities[q] != name,
    decreases authorities.len() - i,
{
    if i < authorities.len() {
        lemma_first_authority(authorities, name, i + 1);
    }
}

/// The provider for a URI is the first whose authority is exactly the one that the URI names, and
/// without one the URI is refused.
pub proof fn law_provider_matches_exactly(authorities: Seq<Seq<char>>, uri: Seq<char>)
    ensures
        provider_for(authorities, uri) matches Ok(p) ==> {
            &&& 0 <= p < authorities.len()
            &&& provider_of(uri) == Some(authorities[p])
            &&& forall|q: int| 0 <= q < p ==> authorities[q] != authorities[p]
        },
        provider_for(authorities, uri) is Err <==> (provider_of(uri) matches Some(name) ==> forall|
            q: int,
        |
            0 <= q < authorities.len() ==> authorities[q] != name),
        provider_for(authorities, uri) matches Err(refusal) ==> refusal is Denied,
{
    if let Some(name) = provider_of(uri) {
        lemma_first_authority(authorities, name, 0);
    }
}

/// Whether `moments` are what a request with these headers goes through, from the moment that it
/// starts on the effects of its rule, by `events` one after the other. Other requests may change the
/// cache in between.
pub open spec fn is_history(
    setting: Setting,
    injections: Seq<CredentialHeaderInjection>,
    headers: HeaderEntries,
    events: Seq<Event>,
    moments: Seq<Moment>,
) -> bool {
    &&& moments.len() == events.len() + 1
    &&& moments[0] == (Moment { headers, stage: stage_at(setting, injections, 0) })
    &&& forall|k: int|
        0 <= k < events.len() ==> follows(
            setting,
            injections,
            #[trigger] events[k],
            moments[k],
            moments[k + 1],
        )
}

/// How many headers are set, and how often the request went on at least, unless it came to an end.
spec fn progress(stage: Stage, len: int) -> Option<(int, int)> {
    match stage {
        Stage::Complete => Some((len, 2 * len)),
        Stage::LookUp { index, .. } => Some((index, 2 * index)),
        Stage::Fetch { index, .. } => Some((index, 2 * index + 1)),
        _ => None,
    }
}

proof fn lemma_history_stage(
    setting: Setting,
    injections: Seq<CredentialHeaderInjection>,
    headers: HeaderEntries,
    events: Seq<Event>,
    moments: Seq<Moment>,
    k: int,
)
    requires
        is_history(setting, injections, headers, events, moments),
        0 <= k < moments.len(),
    ensures
        match moments[k].stage {
            Stage::LookUp { index, provider } | Stage::Fetch { index, provider } => {
                &&& 0 <= index < injections.len()
                &&& provider_for(setting.authorities, injections[index].credential_uri@) == Ok::<
                    int,
                    Refusal,
                >(provider)
            },
            _ => true,
        },
        progress(moments[k].stage, injections.len() as int) matches Some((_, turns)) ==> k <= turns,
        k < events.len() ==> k < 2 * injections.len(),
    decreases k,
{
    if k > 0 {
        lemma_history_stage(setting, injections, headers, events, moments, k - 1);
        assert(follows(setting, injections, events[k - 1], moments[k - 1], moments[k]));
    }
    if k < events.len() {
        assert(follows(setting, injections, events[k], moments[k], moments[k + 1]));
    }
}

/// A request comes to an end: there are at most two events for each effect, a lookup and a reply.
pub proof fn law_requests_come_to_an_end(
    setting: Setting,
    injections: Seq<CredentialHeaderInjection>,
    headers: HeaderEntries,
    events: Seq<Event>,
    moments: Seq<Moment>,
)
    requires
        is_history(setting, injections, headers, events, moments),
    ensures
        events.len() <= 2 * injections.len(),
{
    if events.len() > 0 {
        lemma_history_stage(
            setting,
            injections,
            headers,
            events,
            moments,
            events.len() - 1,
        );
    }
}

/// A secret is asked of the provider whose authority its URI names.
pub proof fn law_secrets_are_asked_of_their_provider(
    setting: Setting,
    injections: Seq<CredentialHeaderInjection>,
    headers: HeaderEntries,
    events: Seq<Event>,
    moments: Seq<Moment>,
    k: int,
)
    requires
        is_history(setting, injections, headers, events, moments),
        0 <= k < moments.len(),
    ensures
        moments[k].stage matches Stage::Fetch { index, provider } ==> {
            &&& 0 <= index < injections.len()
            &&& 0 <= provider < setting.authorities.len()
            &&& provider_of(injections[index].credential_uri@) == Some(
                setting.authorities[provider],
            )
        },
{
    lemma_history_stage(setting, injections, headers, events, moments, k);
    if let Stage::Fetch { index, provider } = moments[k].stage {
        law_provider_matches_exactly(setting.authorities, injections[index].credential_uri@);
    }
}

/// A secret is asked for once for each effect: after the reply, only later effects are due.
pub proof fn law_replies_lead_on(
    setting: Setting,
    injections: Seq<CredentialHeaderInjection>,
    reply: Result<Vec<u8>, Status>,
    before: Moment,
    after: Moment,
)
    requires
        follows(setting, injections, Event::Reply { reply }, before, after),
    ensures
        before.stage matches Stage::Fetch { index, .. } && match after.stage {
            Stage::LookUp { index: next, .. } => next == index + 1,
            Stage::Fetch { .. } => false,
            _ => true,
        },
{
}

/// Whether two header maps have the same values under `name`.
pub open spec fn same_header(a: HeaderEntries, b: HeaderEntries, name: Seq<char>) -> bool {
    &&& a.contains_key(name) == b.contains_key(name)
    &&& a.contains_key(name) ==> a[name] == b[name]
}

/// Whether one of the injections from `i` up to `end` is for the header `name`.
pub open spec fn is_injected(
    injections: Seq<CredentialHeaderInjection>,
    i: int,
    end: int,
    name: Seq<char>,
) -> bool {
    exists|j: int| i <= j < end && lowercase((#[trigger] injections[j]).header@) == name
}

proof fn lemma_event_keeps_other_headers(
    setting: Setting,
    injections: Seq<CredentialHeaderInjection>,
    event: Event,
    before: Moment,
    after: Moment,
    name: Seq<char>,
)
    requires
        follows(setting, injections, event, before, after),
        before.stage matches Stage::LookUp { index, .. } ==> 0 <= index < injections.len(),
        before.stage matches Stage::Fetch { index, .. } ==> 0 <= index < injections.len(),
        is_protected(name) || !is_injected(injections, 0, injections.len() as int, name),
    ensures
        same_header(before.headers, after.headers, name),
{
    match before.stage {
        Stage::LookUp { index, .. } | Stage::Fetch { index, .. } => {
            let _ = injections[index];
        },
        _ => {},
    }
}

/// However far a request gets, headers that route or frame the message keep their values, and so does
/// every header that no effect is for.
pub proof fn law_requests_change_no_other_header(
    setting: Setting,
    injections: Seq<CredentialHeaderInjection>,
    headers: HeaderEntries,
    events: Seq<Event>,
    moments: Seq<Moment>,
    k: int,
    name: Seq<char>,
)
    requires
        is_history(setting, injections, headers, events, moments),
        0 <= k < moments.len(),
        is_protected(name) || !is_injected(injections, 0, injections.len() as int, name),
    ensures
        same_header(headers, moments[k].headers, name),
    decreases k,
{
    if k > 0 {
        law_requests_change_no_other_header(
            setting,
            injections,
            headers,
            events,
            moments,
            k - 1,
            name,
        );
        lemma_history_stage(setting, injections, headers, events, moments, k - 1);
        assert(follows(setting, injections, events[k - 1], moments[k - 1], moments[k]));
        lemma_event_keeps_other_headers(
            setting,
            injections,
            events[k - 1],
            moments[k - 1],
            moments[k],
            name,
        );
    }
}

/// Whether `j` is the last of the first `n` injections that is for the header `name`.
pub open spec fn is_last_for(
    injections: Seq<CredentialHeaderInjection>,
    n: int,
    j: int,
    name: Seq<char>,
) -> bool {
    &&& 0 <= j < n
    &&& lowercase(injections[j].header@) == name
    &&& forall|i: int| j < i < n ==> lowercase((#[trigger] injections[i]).header@) != name
}

/// Whether an event at this stage brings `secret` for the injection `j`: as what is cached for the
/// actor and the injection's URI and is not too old, or as what the provider replies when it is asked
/// for that.
pub open spec fn brings(
    setting: Setting,
    injections: Seq<CredentialHeaderInjection>,
    event: Event,
    stage: Stage,
    j: int,
    secret: Seq<u8>,
) -> bool {
    match (event, stage) {
        (Event::LookUp { cache, now }, Stage::LookUp { index, .. }) => {
            let key = (setting.actor, injections[j].credential_uri@);
            &&& index == j
            &&& lookup(cache, key, now, DEFAULT_CREDENTIAL_CACHE_TTL) == Some(secret)
        },
        (Event::Reply { reply: Ok(returned) }, Stage::Fetch { index, .. }) => {
            &&& index == j
            &&& secret_in(returned@) == Ok::<Seq<u8>, Refusal>(secret)
        },
        _ => false,
    }
}

/// Whether one of the events of a request brought `secret` for the injection `j`.
pub open spec fn came_by(
    setting: Setting,
    injections: Seq<CredentialHeaderInjection>,
    events: Seq<Event>,
    moments: Seq<Moment>,
    j: int,
    secret: Seq<u8>,
) -> bool {
    exists|k: int|
        0 <= k < events.len() && brings(
            setting,
            injections,
            #[trigger] events[k],
            moments[k].stage,
            j,
            secret,
        )
}

proof fn lemma_brought_is_past(
    setting: Setting,
    injections: Seq<CredentialHeaderInjection>,
    headers: HeaderEntries,
    events: Seq<Event>,
    moments: Seq<Moment>,
    k: int,
    later: int,
    j: int,
    secret: Seq<u8>,
)
    requires
        is_history(setting, injections, headers, events, moments),
        0 <= k < later < moments.len(),
        brings(setting, injections, events[k], moments[k].stage, j, secret),
    ensures
        progress(moments[later].stage, injections.len() as int) matches Some((set, _)) ==> set > j,
    decreases later - k,
{
    lemma_history_stage(setting, injections, headers, events, moments, later - 1);
    assert(follows(
        setting,
        injections,
        events[later - 1],
        moments[later - 1],
        moments[later],
    ));
    if later - 1 > k {
        lemma_brought_is_past(
            setting,
            injections,
            headers,
            events,
            moments,
            k,
            later - 1,
            j,
            secret,
        );
    }
}

/// An effect gets one secret: no two events of a request bring different ones for it.
pub proof fn law_each_effect_has_one_secret(
    setting: Setting,
    injections: Seq<CredentialHeaderInjection>,
    headers: HeaderEntries,
    events: Seq<Event>,
    moments: Seq<Moment>,
    j: int,
    secret: Seq<u8>,
    other: Seq<u8>,
)
    requires
        is_history(setting, injections, headers, events, moments),
        came_by(setting, injections, events, moments, j, secret),
        came_by(setting, injections, events, moments, j, other),
    ensures
        secret == other,
{
    let k = choose|k: int|
        0 <= k < events.len() && brings(
            setting,
            injections,
            #[trigger] events[k],
            moments[k].stage,
            j,
            secret,
        );
    let l = choose|l: int|
        0 <= l < events.len() && brings(
            setting,
            injections,
            #[trigger] events[l],
            moments[l].stage,
            j,
            other,
        );
    if k < l {
        lemma_brought_is_past(setting, injections, headers, events, moments, k, l, j, secret);
    } else if l < k {
        lemma_brought_is_past(setting, injections, headers, events, moments, l, k, j, other);
    }
}

/// Whether `name` has exactly one value, which is sensitive: the prefix of an injection and a secret.
pub open spec fn carries(
    headers: HeaderEntries,
    name: Seq<char>,
    injection: CredentialHeaderInjection,
    secret: Seq<u8>,
) -> bool {
    let value = vstd::utf8::encode_utf8(injection.prefix@) + without_line_end(secret);
    headers.contains_key(name) && headers[name] == seq![(value, true)]
}

/// Whether `name` carries a secret that came by for the injection `j`.
pub open spec fn carries_own_secret(
    setting: Setting,
    injections: Seq<CredentialHeaderInjection>,
    events: Seq<Event>,
    moments: Seq<Moment>,
    headers: HeaderEntries,
    name: Seq<char>,
    j: int,
) -> bool {
    exists|secret: Seq<u8>| #[trigger]
        came_by(setting, injections, events, moments, j, secret) && carries(
            headers,
            name,
            injections[j],
            secret,
        )
}

proof fn lemma_headers_so_far(
    setting: Setting,
    injections: Seq<CredentialHeaderInjection>,
    headers: HeaderEntries,
    events: Seq<Event>,
    moments: Seq<Moment>,
    k: int,
    name: Seq<char>,
    j: int,
)
    requires
        is_history(setting, injections, headers, events, moments),
        0 <= k < moments.len(),
    ensures
        progress(moments[k].stage, injections.len() as int) matches Some((set, _)) && is_last_for(
            injections,
            set,
            j,
            name,
        ) ==> carries_own_secret(
            setting,
            injections,
            events,
            moments,
            moments[k].headers,
            name,
            j,
        ),
    decreases k,
{
    if k > 0 {
        lemma_headers_so_far(setting, injections, headers, events, moments, k - 1, name, j);
        lemma_history_stage(setting, injections, headers, events, moments, k - 1);
        let event = events[k - 1];
        let before = moments[k - 1];
        let after = moments[k];
        assert(follows(setting, injections, event, before, after));
        let len = injections.len() as int;
        if progress(after.stage, len) matches Some((set, _)) && is_last_for(
            injections,
            set,
            j,
            name,
        ) {
            let (i, _) = progress(before.stage, len)->Some_0;
            let key = (setting.actor, injections[i].credential_uri@);
            let found = match event {
                Event::LookUp { cache, now } => lookup(
                    cache,
                    key,
                    now,
                    DEFAULT_CREDENTIAL_CACHE_TTL,
                ),
                Event::Reply { reply } => Some(secret_in(reply->Ok_0@)->Ok_0),
            };
            if let Some(secret) = found {
                assert(brings(setting, injections, events[k - 1], before.stage, i, secret));
                assert(came_by(setting, injections, events, moments, i, secret));
                if i == j {
                    assert(carries(after.headers, name, injections[j], secret));
                } else {
                    assert(lowercase(injections[i].header@) != name);
                    assert(is_last_for(injections, i, j, name));
                    let own = choose|own: Seq<u8>| #[trigger]
                        came_by(setting, injections, events, moments, j, own) && carries(
                            before.headers,
                            name,
                            injections[j],
                            own,
                        );
                    assert(carries(after.headers, name, injections[j], own));
                }
            }
        }
    }
}

/// What a request goes out with: each header that an effect is for has exactly one value, whatever it
/// had before. It is made by the last effect for that header, of its prefix and the secret that was
/// cached or received for the request's actor and that effect's URI, and is marked sensitive. Every
/// other header is as it was.
pub proof fn law_requests_carry_their_secrets(
    setting: Setting,
    injections: Seq<CredentialHeaderInjection>,
    headers: HeaderEntries,
    events: Seq<Event>,
    moments: Seq<Moment>,
    name: Seq<char>,
)
    requires
        is_history(setting, injections, headers, events, moments),
        moments.last().stage is Complete,
    ensures
        forall|j: int| #[trigger]
            is_last_for(injections, injections.len() as int, j, name) ==> carries_own_secret(
                setting,
                injections,
                events,
                moments,
                moments.last().headers,
                name,
                j,
            ),
        is_injected(injections, 0, injections.len() as int, name) ==> exists|j: int| #[trigger]
            is_last_for(injections, injections.len() as int, j, name),
        !is_injected(injections, 0, injections.len() as int, name) ==> same_header(
            headers,
            moments.last().headers,
            name,
        ),
{
    let len = injections.len() as int;
    assert forall|j: int| #[trigger]
        is_last_for(injections, len, j, name) implies carries_own_secret(
        setting,
        injections,
        events,
        moments,
        moments.last().headers,
        name,
        j,
    ) by {
        lemma_headers_so_far(
            setting,
            injections,
            headers,
            events,
            moments,
            moments.len() - 1,
            name,
            j,
        );
    }
    if is_injected(injections, 0, len, name) {
        lemma_some_is_last(injections, len, name);
    } else {
        law_requests_change_no_other_header(
            setting,
            injections,
            headers,
            events,
            moments,
            moments.len() - 1,
            name,
        );
    }
}

proof fn lemma_some_is_last(
    injections: Seq<CredentialHeaderInjection>,
    n: int,
    name: Seq<char>,
) -> (j: int)
    requires
        is_injected(injections, 0, n, name),
    ensures
        is_last_for(injections, n, j, name),
    decreases n,
{
    let some = choose|j: int|
        0 <= j < n && lowercase((#[trigger] injections[j]).header@) == name;
    if lowercase(injections[n - 1].header@) == name {
        n - 1
    } else {
        assert(is_injected(injections, 0, n - 1, name)) by {
            let _ = injections[some];
        }
        lemma_some_is_last(injections, n - 1, name)
    }
}

/// Whether two caches hold the same for an actor.
pub open spec fn same_for_actor(a: CacheEntries, b: CacheEntries, actor: Seq<char>) -> bool {
    forall|uri: Seq<char>|
        #![trigger a.contains_key((actor, uri))]
        #![trigger b.contains_key((actor, uri))]
        a.contains_key((actor, uri)) == b.contains_key((actor, uri)) && (a.contains_key(
            (actor, uri),
        ) ==> a[(actor, uri)] == b[(actor, uri)])
}

/// A request uses the secrets of its own actor only: what is cached for others makes no difference to
/// what comes of a lookup.
pub proof fn law_actors_do_not_share_secrets(
    setting: Setting,
    injections: Seq<CredentialHeaderInjection>,
    cache: CacheEntries,
    other_cache: CacheEntries,
    now: u128,
    before: Moment,
    after: Moment,
)
    requires
        same_for_actor(cache, other_cache, setting.actor),
    ensures
        follows(setting, injections, Event::LookUp { cache, now }, before, after) <==> follows(
            setting,
            injections,
            Event::LookUp { cache: other_cache, now },
            before,
            after,
        ),
{
    if let Stage::LookUp { index, .. } = before.stage {
        let key = (setting.actor, injections[index].credential_uri@);
        assert(cache.contains_key(key) == other_cache.contains_key(key));
    }
}

/// A secret that a provider sent for an actor is not fetched again while it is fresh, if it was cached
/// with room: a lookup in the cache that it was put into uses it.
pub proof fn law_fresh_secret_is_not_fetched_again(
    setting: Setting,
    injections: Seq<CredentialHeaderInjection>,
    index: int,
    provider: int,
    reply: Result<Vec<u8>, Status>,
    fetched_at: u128,
    earlier: CacheEntries,
    capacity: nat,
    cache: CacheEntries,
    now: u128,
    headers: HeaderEntries,
    after: Moment,
)
    requires
        reply matches Ok(returned) && secret_in(returned@) is Ok,
        reply_cached(
            earlier,
            capacity,
            (setting.actor, injections[index].credential_uri@),
            reply,
            fetched_at,
            cache,
        ),
        has_room(earlier, capacity, (setting.actor, injections[index].credential_uri@)),
        !is_expired(fetched_at, now, DEFAULT_CREDENTIAL_CACHE_TTL),
        follows(
            setting,
            injections,
            Event::LookUp { cache, now },
            Moment { headers, stage: Stage::LookUp { index, provider } },
            after,
        ),
    ensures
        secret_used(
            setting,
            injections,
            index,
            secret_in(reply->Ok_0@)->Ok_0,
            headers,
            after,
        ),
        after.stage !is Fetch,
{
}

/// A request goes on only if its policy could be had and lets its destination through: without that,
/// it is refused, with 503 if the control plane was out of reach and with 403 otherwise.
pub proof fn law_no_policy_no_egress(
    reply: Result<EgressPolicy, Status>,
    destination: Option<DestinationContext>,
)
    ensures
        policy_injections(reply, destination) is Ok <==> (reply matches Ok(policy)
            && policy_decision(policy, destination) is Ok),
        policy_injections(reply, destination) matches Err(refusal) ==> refusal.http_status() == (
        if reply matches Err(status) && status.is_outage() {
            503u16
        } else {
            403u16
        }),
{
    if let Ok(policy) = reply {
        if let Some(to) = destination {
            law_no_matching_rule_denies(policy.rules@, to);
        }
    }
}

/// The setting of an actor holds the authorities of all providers as they are configured, in order, and
/// the actor.
pub proof fn law_settings_hold_the_configuration<B>(egress: SubstrateEgress<B>, actor: Seq<char>)
    ensures
        egress.setting(actor).actor == actor,
        egress.setting(actor).authorities.len() == egress.credential_providers.len(),
        forall|i: int|
            0 <= i < egress.credential_providers.len() ==> #[trigger] egress.setting(
                actor,
            ).authorities[i] == egress.credential_providers[i].uri_authority@,
{
}

/// The provider of a URI, in terms of the authorities: the first that equals the name in the URI. A URI
/// without a name, and a name without a provider, are each denied for their own reason.
pub proof fn law_providers_are_found_in_order(authorities: Seq<Seq<char>>, uri: Seq<char>, p: int)
    ensures
        provider_of(uri) is None ==> provider_for(authorities, uri) == Err::<int, Refusal>(
            Refusal::Denied("invalid credential URI: "@ + uri),
        ),
        provider_of(uri) matches Some(name) ==> {
            &&& (forall|q: int| 0 <= q < authorities.len() ==> #[trigger] authorities[q] != name)
                ==> provider_for(authorities, uri) == Err::<int, Refusal>(
                Refusal::Denied("no credential provider configured for "@ + name),
            )
            &&& provider_for(authorities, uri) == Ok::<int, Refusal>(p) <==> {
                &&& 0 <= p < authorities.len()
                &&& authorities[p] == name
                &&& forall|q: int| 0 <= q < p ==> #[trigger] authorities[q] != name
            }
        },
{
    if let Some(name) = provider_of(uri) {
        lemma_first_authority(authorities, name, 0);
        if let Some(first) = first_authority(authorities, name, 0) {
            assert(authorities[first] == name);
        }
    }
}

/// `provider_for_uri` hands out the first provider whose configured authority is exactly the name that
/// stands in the URI, or denies.
pub proof fn law_provider_for_uris<B>(
    egress: SubstrateEgress<B>,
    uri: &str,
    provider: Result<&CredentialProvider<B>, ProxyError>,
)
    requires
        call_ensures(SubstrateEgress::<B>::provider_for_uri, (&egress, uri), provider),
    ensures
        match (provider_of(uri@), provider) {
            (Some(name), Ok(found)) => exists|p: int|
                {
                    &&& 0 <= p < egress.credential_providers.len()
                    &&& *found == #[trigger] egress.credential_providers[p]
                    &&& found.uri_authority@ == name
                    &&& forall|q: int|
                        0 <= q < p ==> (#[trigger] egress.credential_providers[q]).uri_authority@
                            != name
                },
            (Some(name), Err(ProxyError::SubstrateEgressDenied(message))) => {
                &&& message@ == "no credential provider configured for "@ + name
                &&& forall|q: int|
                    0 <= q < egress.credential_providers.len() ==> (
                    #[trigger] egress.credential_providers[q]).uri_authority@ != name
            },
            (None, Err(ProxyError::SubstrateEgressDenied(message))) => message@
                == "invalid credential URI: "@ + uri@,
            _ => false,
        },
{
    let authorities = egress.authorities();
    let found = provider_for(authorities, uri@);
    law_providers_are_found_in_order(
        authorities,
        uri@,
        if found is Ok {
            found->Ok_0
        } else {
            0
        },
    );
    if let Some(name) = provider_of(uri@) {
        lemma_first_authority(authorities, name, 0);
        assert forall|q: int| 0 <= q < egress.credential_providers.len() implies (
        #[trigger] egress.credential_providers[q]).uri_authority@ == authorities[q] by {}
        if let Ok(p) = found {
            assert(egress.credential_providers[p].uri_authority@ == name);
        }
    }
}

/// What is due for a request that has all headers before `index`: nothing if there are no more; else a
/// lookup, with the first provider whose authority is the name in the URI, or a denial without one.
pub proof fn law_effects_are_due_in_order(
    setting: Setting,
    injections: Seq<CredentialHeaderInjection>,
    index: int,
    p: int,
)
    requires
        0 <= index,
    ensures
        stage_at(setting, injections, index) is Complete <==> index >= injections.len(),
        index < injections.len() ==> {
            let uri = injections[index].credential_uri@;
            match provider_of(uri) {
                None => stage_at(setting, injections, index) == Stage::Refused(
                    Refusal::Denied("invalid credential URI: "@ + uri),
                ),
                Some(name) => {
                    &&& (forall|q: int|
                        0 <= q < setting.authorities.len() ==> #[trigger] setting.authorities[q]
                            != name) ==> stage_at(setting, injections, index) == Stage::Refused(
                        Refusal::Denied("no credential provider configured for "@ + name),
                    )
                    &&& stage_at(setting, injections, index) == (Stage::LookUp {
                        index,
                        provider: p,
                    }) <==> {
                        &&& 0 <= p < setting.authorities.len()
                        &&& setting.authorities[p] == name
                        &&& forall|q: int|
                            0 <= q < p ==> #[trigger] setting.authorities[q] != name
                    }
                },
            }
        },
{
    if index < injections.len() {
        let uri = injections[index].credential_uri@;
        law_providers_are_found_in_order(setting.authorities, uri, p);
    }
}

/// A step and the stage that it shows say the same, and a secret that it asks for is for the actor and
/// the injections that it is said to be for.
pub proof fn law_steps_show_their_stage(
    step: Step,
    actor: Seq<char>,
    injections: Seq<CredentialHeaderInjection>,
)
    ensures
        match step {
            Step::Proceed => step.stage() == Stage::Complete,
            Step::LookUpSecret(pending) => step.stage() == (Stage::LookUp {
                index: pending.index as int,
                provider: pending.provider as int,
            }),
            Step::FetchSecret(pending) => step.stage() == (Stage::Fetch {
                index: pending.index as int,
                provider: pending.provider as int,
            }),
            Step::Refused(ProxyError::SubstrateEgressDenied(m)) => step.stage() == Stage::Refused(
                Refusal::Denied(m@),
            ),
            Step::Refused(ProxyError::SubstrateEgressUnavailable(m)) => step.stage()
                == Stage::Refused(Refusal::Unavailable(m@)),
            Step::HeadersFull => step.stage() == Stage::Full,
        },
        match step {
            Step::LookUpSecret(pending) | Step::FetchSecret(pending) => step.is_for(
                actor,
                injections,
            ) <==> {
                &&& pending.index < injections.len()
                &&& pending.injections@ == injections
                &&& pending.actor_spiffe_id@ == actor
            },
            _ => true,
        },
{
}

/// A pending secret's URI is that of its injection, in full.
pub proof fn law_pending_uri(pending: PendingSecret, uri: &str)
    requires
        pending.index < pending.injections.len(),
        call_ensures(PendingSecret::uri, (&pending,), uri),
    ensures
        uri@ == pending.injections[pending.index as int].credential_uri@,
{
}

/// A new policy starts with what it is given, and with an empty cache.
pub proof fn law_new_policies<B>(
    target: B,
    credential_providers: Vec<CredentialProvider<B>>,
    egress: SubstrateEgress<B>,
)
    requires
        call_ensures(SubstrateEgress::<B>::new, (target, credential_providers), egress),
    ensures
        egress.target == target,
        egress.credential_providers@ == credential_providers@,
        egress.credential_cache@.dom().len() == 0,
        forall|key: (Seq<char>, Seq<char>)|
            !(#[trigger] egress.credential_cache@.contains_key(key)),
        egress.credential_cache.capacity() == 8192,
{
}

/// The injections of a policy are those of the first rule that matches, and of no other. If rule `i`
/// matches and all before it pass the destination over, they are exactly the headers in the effects of
/// rule `i`'s host-name matcher, all of them and in order, and none where it has none; whatever the other
/// rules hold.
pub proof fn law_only_the_matching_rule_takes_effect(
    policy: EgressPolicy,
    to: DestinationContext,
    i: int,
)
    requires
        0 <= i < policy.rules.len(),
        rule_decision(policy.rules[i], to) == Ok::<bool, Refusal>(true),
        forall|j: int|
            0 <= j < i ==> rule_decision(#[trigger] policy.rules[j], to) == Ok::<bool, Refusal>(
                false,
            ),
    ensures
        policy_injections(Ok(policy), Some(to)) is Ok,
        ({
            let injections = policy_injections(Ok(policy), Some(to))->Ok_0;
            &&& policy.rules[i].hostnames is None ==> injections.len() == 0
            &&& policy.rules[i].hostnames matches Some(hostnames) ==> {
                &&& hostnames.effects is None ==> injections.len() == 0
                &&& hostnames.effects matches Some(effects) ==> injections
                    == effects.inject_static_headers@
            }
        }),
{
    law_first_matching_rule_wins(policy.rules@, to, i);
}

/// What two policies set on a request depends on nothing but the rule that each follows: if the rules
/// that match first are the same, so are the headers.
pub proof fn law_other_rules_take_no_effect(
    policy: EgressPolicy,
    other: EgressPolicy,
    to: DestinationContext,
    i: int,
    j: int,
)
    requires
        0 <= i < policy.rules.len(),
        0 <= j < other.rules.len(),
        policy.rules[i] == other.rules[j],
        rule_decision(policy.rules[i], to) == Ok::<bool, Refusal>(true),
        forall|k: int|
            0 <= k < i ==> rule_decision(#[trigger] policy.rules[k], to) == Ok::<bool, Refusal>(
                false,
            ),
        forall|k: int|
            0 <= k < j ==> rule_decision(#[trigger] other.rules[k], to) == Ok::<bool, Refusal>(
                false,
            ),
    ensures
        policy_injections(Ok(policy), Some(to)) == policy_injections(Ok(other), Some(to)),
{
    law_first_matching_rule_wins(policy.rules@, to, i);
    law_first_matching_rule_wins(other.rules@, to, j);
}

/// `apply_effects` starts on all headers in the effects of the rule's host-name matcher, from the first
/// on and for the actor under both names, and lets the request go where there are none.
pub proof fn law_effects_of_a_rule<B>(
    egress: SubstrateEgress<B>,
    identity: ActorIdentity,
    rule: EgressRule,
    step: Step,
)
    requires
        call_ensures(SubstrateEgress::<B>::apply_effects, (&egress, &identity, &rule), step),
    ensures
        rule.hostnames is None ==> step is Proceed,
        rule.hostnames matches Some(hostnames) ==> {
            &&& hostnames.effects is None ==> step is Proceed
            &&& hostnames.effects matches Some(effects) ==> {
                let actor = "spiffe://substrate-actor.local/actor/"@ + identity.atespace@ + "/"@
                    + identity.actor_name@;
                &&& step is Proceed <==> effects.inject_static_headers.len() == 0
                &&& step.stage() == stage_at(
                    egress.setting(actor),
                    effects.inject_static_headers@,
                    0,
                )
                &&& step.is_for(actor, effects.inject_static_headers@)
            }
        },
{
}

/// `policy_received` follows the first rule that matches, and no other: if rule `i` matches and all
/// before it pass the destination over, the request goes on with exactly the headers of rule `i`, for
/// the actor that it came from; and goes on as it is where rule `i` has none.
pub proof fn law_requests_follow_the_matching_rule<B>(
    egress: SubstrateEgress<B>,
    policy: EgressPolicy,
    req: Request,
    step: Step,
    i: int,
)
    requires
        call_ensures(
            SubstrateEgress::<B>::policy_received,
            (&egress, Ok::<EgressPolicy, Status>(policy), &req),
            step,
        ),
        req.actor_identity is Some,
        req.destination is Some,
        0 <= i < policy.rules.len(),
        rule_decision(policy.rules[i], req.destination->Some_0) == Ok::<bool, Refusal>(true),
        forall|j: int|
            0 <= j < i ==> rule_decision(#[trigger] policy.rules[j], req.destination->Some_0)
                == Ok::<bool, Refusal>(false),
    ensures
        policy.rules[i].hostnames is None ==> step is Proceed,
        policy.rules[i].hostnames matches Some(hostnames) ==> {
            &&& hostnames.effects is None ==> step is Proceed
            &&& hostnames.effects matches Some(effects) ==> {
                let identity = req.actor_identity->Some_0;
                let actor = "spiffe://substrate-actor.local/actor/"@ + identity.atespace@ + "/"@
                    + identity.actor_name@;
                &&& step is Proceed <==> effects.inject_static_headers.len() == 0
                &&& step.stage() == stage_at(
                    egress.setting(actor),
                    effects.inject_static_headers@,
                    0,
                )
                &&& step.is_for(actor, effects.inject_static_headers@)
            }
        },
{
    law_only_the_matching_rule_takes_effect(policy, req.destination->Some_0, i);
    let injections = policy_injections(Ok(policy), req.destination)->Ok_0;
    if policy.rules[i].hostnames is None || policy.rules[i].hostnames->Some_0.effects is None {
        assert(injections.len() == 0);
    }
}

/// `policy_received` refuses where no rule is to be followed: without an actor or a destination, without
/// a policy, if no rule matches, and if a malformed rule comes before any that does. It sends nothing
/// on, and asks for no secret, in any of these cases.
pub proof fn law_requests_without_a_rule_are_refused<B>(
    egress: SubstrateEgress<B>,
    reply: Result<EgressPolicy, Status>,
    req: Request,
    step: Step,
)
    requires
        call_ensures(SubstrateEgress::<B>::policy_received, (&egress, reply, &req), step),
    ensures
        req.actor_identity is None ==> (step matches Step::Refused(
            ProxyError::SubstrateEgressDenied(m),
        ) && m@ == "missing CONNECT-authorized actor identity"@),
        req.actor_identity is Some ==> match reply {
            Err(status) => if status.code == 14 || status.code == 4 {
                step matches Step::Refused(ProxyError::SubstrateEgressUnavailable(m)) && m@
                    == "actor egress policy unavailable: "@ + status.text()
            } else {
                step matches Step::Refused(ProxyError::SubstrateEgressDenied(m)) && m@
                    == "actor egress policy denied: "@ + status.text()
            },
            Ok(policy) => match req.destination {
                None => step matches Step::Refused(ProxyError::SubstrateEgressDenied(m)) && m@
                    == "missing egress destination context"@,
                Some(to) => {
                    &&& (forall|j: int|
                        0 <= j < policy.rules.len() ==> rule_decision(
                            #[trigger] policy.rules[j],
                            to,
                        ) == Ok::<bool, Refusal>(false)) ==> (step matches Step::Refused(
                        ProxyError::SubstrateEgressDenied(m),
                    ) && m@ == "actor egress policy denied destination"@)
                    &&& forall|i: int|
                        {
                            &&& 0 <= i < policy.rules.len()
                            &&& rule_decision(#[trigger] policy.rules[i], to) is Err
                            &&& forall|j: int|
                                0 <= j < i ==> rule_decision(#[trigger] policy.rules[j], to)
                                    == Ok::<bool, Refusal>(false)
                        } ==> (step matches Step::Refused(error) && Err::<bool, Refusal>(error@)
                            == rule_decision(policy.rules[i], to))
                },
            },
        },
{
    if let Ok(policy) = reply {
        if let Some(to) = req.destination {
            law_no_matching_rule_denies(policy.rules@, to);
            assert forall|i: int|
                {
                    &&& 0 <= i < policy.rules.len()
                    &&& rule_decision(#[trigger] policy.rules[i], to) is Err
                    &&& forall|j: int|
                        0 <= j < i ==> rule_decision(#[trigger] policy.rules[j], to) == Ok::<
                            bool,
                            Refusal,
                        >(false)
                } implies rules_decision(policy.rules@, 0, to) == Err::<int, Refusal>(
                rule_decision(policy.rules[i], to)->Err_0,
            ) by {
                lemma_malformed_rule_refuses(policy.rules@, 0, to, i);
            }
        }
    }
}

proof fn lemma_malformed_rule_refuses(
    rules: Seq<EgressRule>,
    from: int,
    to: DestinationContext,
    i: int,
)
    requires
        0 <= from <= i < rules.len(),
        rule_decision(rules[i], to) is Err,
        forall|j: int|
            from <= j < i ==> rule_decision(#[trigger] rules[j], to) == Ok::<bool, Refusal>(false),
    ensures
        rules_decision(rules, from, to) == Err::<int, Refusal>(rule_decision(rules[i], to)->Err_0),
    decreases i - from,
{
    if from < i {
        assert(rule_decision(rules[from], to) == Ok::<bool, Refusal>(false));
        lemma_malformed_rule_refuses(rules, from + 1, to, i);
    }
}

/// `apply` asks for the policy of the very actor that the request came from, and logs that actor with
/// its unique ID. Without one it denies, and logs nothing.
pub proof fn law_apply_asks_about_the_requests_actor<B>(
    egress: SubstrateEgress<B>,
    req: Request,
    actor: Result<ActorRef, ProxyError>,
)
    ensures
        forall|log: &mut RequestLog| #[trigger]
            call_ensures(SubstrateEgress::<B>::apply, (&egress, log, &req), actor) ==> match (
                req.actor_identity,
                actor,
            ) {
                (Some(identity), Ok(asked)) => {
                    &&& asked.atespace@ == identity.atespace@
                    &&& asked.name@ == identity.actor_name@
                    &&& final(log).ate_actor_name is Some
                    &&& final(log).ate_actor_name->Some_0@ == identity.actor_name@
                    &&& final(log).ate_atespace is Some
                    &&& final(log).ate_atespace->Some_0@ == identity.atespace@
                    &&& final(log).ate_actor_uid is Some <==> identity.actor_uid is Some
                    &&& identity.actor_uid matches Some(uid) ==> uid@
                        == final(log).ate_actor_uid->Some_0@
                },
                (None, Err(ProxyError::SubstrateEgressDenied(message))) => {
                    &&& message@ == "missing CONNECT-authorized actor identity"@
                    &&& *final(log) == *log
                },
                _ => false,
            },
{
}

/// `look_up_secret` uses what is cached for the pending secret's actor and URI exactly while no more
/// than five minutes have passed since it was fetched; else it drops that and asks for the secret, which
/// stays the same. It touches nothing of the request but headers, and nothing of the policy but that
/// one entry.
pub proof fn law_lookups_use_fresh_secrets_only<B>(pending: PendingSecret, now: u128, step: Step)
    requires
        pending.index < pending.injections.len(),
    ensures
        forall|egress: &mut SubstrateEgress<B>, req: &mut Request| #[trigger]
            call_ensures(
                SubstrateEgress::<B>::look_up_secret,
                (egress, pending, req, now),
                step,
            ) ==> {
                let key = (
                    pending.actor_spiffe_id@,
                    pending.injections[pending.index as int].credential_uri@,
                );
                let cache = egress.credential_cache@;
                let fresh = cache.contains_key(key) && now <= cache[key].1 + 300_000_000_000;
                &&& step is FetchSecret <==> !fresh
                &&& step matches Step::FetchSecret(asked) ==> {
                    &&& asked.index == pending.index
                    &&& asked.provider == pending.provider
                    &&& asked.injections@ == pending.injections@
                    &&& asked.actor_spiffe_id@ == pending.actor_spiffe_id@
                    &&& header_entries(final(req).headers) == header_entries(req.headers)
                }
                &&& final(egress).credential_cache@ == (if fresh {
                    cache
                } else {
                    cache.remove(key)
                })
                &&& final(egress).target == egress.target
                &&& final(egress).credential_providers == egress.credential_providers
                &&& final(req).tcp == req.tcp
                &&& final(req).tls == req.tls
                &&& final(req).actor_identity == req.actor_identity
                &&& final(req).destination == req.destination
            },
{
    assert forall|egress: &mut SubstrateEgress<B>, req: &mut Request| #[trigger]
        call_ensures(
            SubstrateEgress::<B>::look_up_secret,
            (egress, pending, req, now),
            step,
        ) implies {
        let key = (
            pending.actor_spiffe_id@,
            pending.injections[pending.index as int].credential_uri@,
        );
        let cache = egress.credential_cache@;
        let fresh = cache.contains_key(key) && now <= cache[key].1 + 300_000_000_000;
        &&& step is FetchSecret <==> !fresh
        &&& final(egress).credential_cache@ == (if fresh {
            cache
        } else {
            cache.remove(key)
        })
    } by {
        let key = (
            pending.actor_spiffe_id@,
            pending.injections[pending.index as int].credential_uri@,
        );
        let cache = egress.credential_cache@;
        if !cache.contains_key(key) {
            assert(cache.remove(key) == cache);
        }
    }
}

/// A lookup that finds a secret sets the header that it was for, in place of all values that the header
/// had and marked sensitive, and goes on with the next effect. It refuses the request where no header
/// can be made, leaving its headers as they were; only more than 6553 names may leave no room.
pub proof fn law_lookups_set_the_header<B>(
    pending: PendingSecret,
    now: u128,
    step: Step,
    name: Seq<char>,
    value: Seq<u8>,
    sensitive: bool,
    refusal: Refusal,
)
    requires
        pending.index < pending.injections.len(),
    ensures
        forall|egress: &mut SubstrateEgress<B>, req: &mut Request|
            {
                let injection = pending.injections[pending.index as int];
                let key = (pending.actor_spiffe_id@, injection.credential_uri@);
                let cache = egress.credential_cache@;
                &&& #[trigger] call_ensures(
                    SubstrateEgress::<B>::look_up_secret,
                    (egress, pending, req, now),
                    step,
                )
                &&& cache.contains_key(key)
                &&& now <= cache[key].1 + 300_000_000_000
            } ==> {
                let injection = pending.injections[pending.index as int];
                let key = (pending.actor_spiffe_id@, injection.credential_uri@);
                let made = header_of(injection, egress.credential_cache@[key].0);
                let headers = header_entries(req.headers);
                let after = header_entries(final(req).headers);
                &&& made == Ok::<(Seq<char>, Seq<u8>, bool), Refusal>((name, value, sensitive)) ==> {
                    ||| {
                        &&& after == headers.insert(name, seq![(value, true)])
                        &&& step.stage() == stage_at(
                            egress.setting(pending.actor_spiffe_id@),
                            pending.injections@,
                            pending.index + 1,
                        )
                        &&& step.is_for(pending.actor_spiffe_id@, pending.injections@)
                    }
                    ||| step is HeadersFull && after == headers && headers.dom().len() > 6553
                }
                &&& made == Err::<(Seq<char>, Seq<u8>, bool), Refusal>(refusal) ==> {
                    &&& step matches Step::Refused(error) && error@ == refusal
                    &&& after == headers
                }
            },
{
}

/// `secret_received` sets the header that the received secret was for, in place of all values that the
/// header had and marked sensitive, and goes on with the next effect. It caches that secret, whole and
/// with this time, under the pending secret's actor and URI; nothing else in the cache appears or
/// changes.
pub proof fn law_received_secrets_set_the_header<B>(
    pending: PendingSecret,
    returned: Vec<u8>,
    now: u128,
    step: Step,
    secret: Seq<u8>,
    name: Seq<char>,
    value: Seq<u8>,
    sensitive: bool,
    refusal: Refusal,
)
    requires
        pending.index < pending.injections.len(),
        secret_in(returned@) == Ok::<Seq<u8>, Refusal>(secret),
    ensures
        forall|egress: &mut SubstrateEgress<B>, req: &mut Request| #[trigger]
            call_ensures(
                SubstrateEgress::<B>::secret_received,
                (egress, pending, Ok::<Vec<u8>, Status>(returned), req, now),
                step,
            ) ==> {
                let injection = pending.injections[pending.index as int];
                let key = (pending.actor_spiffe_id@, injection.credential_uri@);
                let made = header_of(injection, secret);
                let headers = header_entries(req.headers);
                let after = header_entries(final(req).headers);
                let cache = egress.credential_cache@;
                let cached = final(egress).credential_cache@;
                let count = cache.dom().len();
                &&& made == Ok::<(Seq<char>, Seq<u8>, bool), Refusal>((name, value, sensitive)) ==> {
                    ||| {
                        &&& after == headers.insert(name, seq![(value, true)])
                        &&& step.stage() == stage_at(
                            egress.setting(pending.actor_spiffe_id@),
                            pending.injections@,
                            pending.index + 1,
                        )
                        &&& step.is_for(pending.actor_spiffe_id@, pending.injections@)
                    }
                    ||| step is HeadersFull && after == headers && headers.dom().len() > 6553
                }
                &&& made == Err::<(Seq<char>, Seq<u8>, bool), Refusal>(refusal) ==> {
                    &&& step matches Step::Refused(error) && error@ == refusal
                    &&& after == headers
                }
                &&& cached.contains_key(key) ==> cached[key] == (secret, now)
                &&& forall|other: (Seq<char>, Seq<char>)| #[trigger]
                    cached.contains_key(other) && other != key ==> cache.contains_key(other)
                        && cached[other] == cache[other]
                &&& cache.contains_key(key) || (count < egress.credential_cache.capacity() && count
                    < 32) ==> cached == cache.insert(key, (secret, now))
                &&& final(egress).target == egress.target
                &&& final(egress).credential_providers == egress.credential_providers
                &&& final(req).tcp == req.tcp
                &&& final(req).tls == req.tls
                &&& final(req).actor_identity == req.actor_identity
                &&& final(req).destination == req.destination
            },
{
}

/// Without a usable secret in the reply `secret_received` refuses the request, and changes neither its
/// headers nor the cache: as unavailable if what was returned is unusable or the call failed with the
/// code 14 or 4, and as denied if it failed with any other.
pub proof fn law_failed_fetches_refuse<B>(
    pending: PendingSecret,
    reply: Result<Vec<u8>, Status>,
    now: u128,
    step: Step,
)
    requires
        pending.index < pending.injections.len(),
        reply matches Ok(returned) ==> secret_in(returned@) is Err,
    ensures
        forall|egress: &mut SubstrateEgress<B>, req: &mut Request| #[trigger]
            call_ensures(
                SubstrateEgress::<B>::secret_received,
                (egress, pending, reply, req, now),
                step,
            ) ==> {
                let uri = pending.injections[pending.index as int].credential_uri@;
                let provider = match provider_of(uri) {
                    Some(name) => name,
                    None => "unknown"@,
                };
                &&& header_entries(final(req).headers) == header_entries(req.headers)
                &&& final(egress).credential_cache@ == egress.credential_cache@
                &&& match reply {
                    Ok(_) => step matches Step::Refused(
                        ProxyError::SubstrateEgressUnavailable(m),
                    ) && m@ == "credential provider returned an unusable secret"@,
                    Err(status) => if status.code == 14 || status.code == 4 {
                        step matches Step::Refused(ProxyError::SubstrateEgressUnavailable(m)) && m@
                            == "credential provider "@ + provider + " unavailable: "@
                            + status.text()
                    } else {
                        step matches Step::Refused(ProxyError::SubstrateEgressDenied(m)) && m@
                            == "credential provider "@ + provider + " denied: "@ + status.text()
                    },
                }
            },
{
}

} // verus!
