use substrate_egress::cache::DEFAULT_CREDENTIAL_CACHE_TTL;
use substrate_egress::egress::{CredentialProvider, PendingSecret, Step, SubstrateEgress};
use substrate_egress::error::{ProxyError, Status};
use substrate_egress::network::IpAddress;
use substrate_egress::policy::{
    CredentialHeaderInjection, DestinationContext, EgressPolicy, EgressRule, EgressRuleEffects,
    HostnameRule,
};
use substrate_egress::request::{ActorIdentity, Request, RequestLog};

const TOKEN: &str = "ate-secret://kubernetes.io/default/upstream-token";
const NOW: u128 = 1_000_000_000_000;

fn provider(authority: &str, target: u32) -> CredentialProvider<u32> {
    CredentialProvider { uri_authority: authority.to_owned(), target }
}

fn egress() -> SubstrateEgress<u32> {
    SubstrateEgress::new(0, vec![provider("vault.example", 1), provider("kubernetes.io", 2)])
}

fn injection(header: &str, uri: &str) -> CredentialHeaderInjection {
    CredentialHeaderInjection {
        header: header.to_owned(),
        prefix: "Bearer ".to_owned(),
        credential_uri: uri.to_owned(),
    }
}

fn rule(injections: Vec<CredentialHeaderInjection>) -> EgressRule {
    EgressRule {
        hostnames: Some(HostnameRule {
            patterns: vec!["allowed.example".to_owned()],
            effects: Some(EgressRuleEffects { inject_static_headers: injections }),
        }),
        ..Default::default()
    }
}

fn policy(injections: Vec<CredentialHeaderInjection>) -> Result<EgressPolicy, Status> {
    Ok(EgressPolicy { rules: vec![rule(injections)] })
}

fn actor(name: &str) -> ActorIdentity {
    ActorIdentity {
        atespace: "demo".to_owned(),
        actor_name: name.to_owned(),
        actor_uid: Some("uid-1".to_owned()),
    }
}

fn request_of(name: &str) -> Request {
    let mut headers = http::HeaderMap::new();
    headers.insert("host", "allowed.example".parse().unwrap());
    headers.insert("authorization", "Bearer actor-supplied".parse().unwrap());
    headers.append("authorization", "Bearer again".parse().unwrap());
    Request {
        headers,
        tcp: None,
        tls: None,
        actor_identity: Some(actor(name)),
        destination: Some(DestinationContext {
            address: IpAddress::V4(0xC000_020A),
            port: 18080,
            hostname: Some("allowed.example".to_owned()),
        }),
    }
}

fn request() -> Request {
    request_of("my-actor")
}

fn fetched(step: Step) -> PendingSecret {
    match step {
        Step::FetchSecret(fetch) => fetch,
        _ => panic!("no secret asked for"),
    }
}

/// Looks secrets up at `now` for as long as that is the next step.
fn looked_up(
    egress: &mut SubstrateEgress<u32>,
    step: Step,
    req: &mut Request,
    now: u128,
) -> Step {
    let mut step = step;
    while let Step::LookUpSecret(pending) = step {
        step = egress.look_up_secret(pending, req, now);
    }
    step
}

/// Receives the policy, and looks secrets up.
fn decided(
    egress: &mut SubstrateEgress<u32>,
    reply: Result<EgressPolicy, Status>,
    req: &mut Request,
    now: u128,
) -> Step {
    let step = egress.policy_received(reply, req);
    looked_up(egress, step, req, now)
}

/// Receives a secret, and looks further ones up.
fn received(
    egress: &mut SubstrateEgress<u32>,
    fetch: PendingSecret,
    reply: Result<Vec<u8>, Status>,
    req: &mut Request,
    now: u128,
) -> Step {
    let step = egress.secret_received(fetch, reply, req, now);
    looked_up(egress, step, req, now)
}

fn refused(step: Step) -> ProxyError {
    match step {
        Step::Refused(error) => error,
        _ => panic!("not refused"),
    }
}

fn values(req: &Request, name: &str) -> Vec<String> {
    req.headers.get_all(name).iter().map(|v| v.to_str().unwrap().to_owned()).collect()
}

#[test]
fn provider_credentials_are_injected_into_the_upstream_request() {
    let mut egress = egress();
    let mut req = request();
    let mut log = RequestLog::default();
    let asked = egress.apply(&mut log, &req).unwrap();
    assert_eq!((asked.atespace.as_str(), asked.name.as_str()), ("demo", "my-actor"));
    assert_eq!(log.ate_actor_uid.as_deref(), Some("uid-1"));
    assert_eq!(log.ate_actor_name.as_deref(), Some("my-actor"));
    assert_eq!(log.ate_atespace.as_deref(), Some("demo"));

    let step =
        decided(&mut egress, policy(vec![injection("authorization", TOKEN)]), &mut req, NOW);
    let fetch = fetched(step);
    assert_eq!(fetch.uri(), TOKEN);
    assert_eq!(fetch.actor_spiffe_id, "spiffe://substrate-actor.local/actor/demo/my-actor");
    assert_eq!(egress.credential_providers[fetch.provider].target, 2);

    let step = received(&mut egress, fetch, Ok(b"injected-token".to_vec()), &mut req, NOW);
    assert!(matches!(step, Step::Proceed));
    assert_eq!(values(&req, "authorization"), ["Bearer injected-token"]);
    assert!(req.headers["authorization"].is_sensitive());
    assert_eq!(values(&req, "host"), ["allowed.example"]);
}

#[test]
fn fresh_secrets_are_not_fetched_again_and_stale_ones_are() {
    let mut egress = egress();
    let effects = || policy(vec![injection("authorization", TOKEN)]);
    let mut req = request();
    let fetch = fetched(decided(&mut egress, effects(), &mut req, NOW));
    received(&mut egress, fetch, Ok(b"first\n".to_vec()), &mut req, NOW + 5);

    let mut req = request();
    let later = NOW + 5 + DEFAULT_CREDENTIAL_CACHE_TTL;
    let step = decided(&mut egress, effects(), &mut req, later);
    assert!(matches!(step, Step::Proceed));
    assert_eq!(values(&req, "authorization"), ["Bearer first"]);

    let mut req = request();
    let step = decided(&mut egress, effects(), &mut req, later + 1);
    let fetch = fetched(step);
    let step = received(&mut egress, fetch, Ok(b"second".to_vec()), &mut req, later + 1);
    assert!(matches!(step, Step::Proceed));
    assert_eq!(values(&req, "authorization"), ["Bearer second"]);
}

#[test]
fn each_lookup_goes_by_the_time_it_is_then() {
    let mut egress = egress();
    let mut req = request();
    let effects = || policy(vec![injection("x-one", TOKEN), injection("x-two", TOKEN)]);
    let fetch = fetched(decided(&mut egress, effects(), &mut req, NOW));
    assert!(matches!(
        received(&mut egress, fetch, Ok(b"first".to_vec()), &mut req, NOW),
        Step::Proceed
    ));

    // The secret is good at the first lookup, and too old at the second.
    let mut req = request();
    let Step::LookUpSecret(pending) = egress.policy_received(effects(), &req) else {
        panic!("no lookup")
    };
    let limit = NOW + DEFAULT_CREDENTIAL_CACHE_TTL;
    let Step::LookUpSecret(pending) = egress.look_up_secret(pending, &mut req, limit) else {
        panic!("no second lookup")
    };
    assert_eq!(values(&req, "x-one"), ["Bearer first"]);
    let fetch = fetched(egress.look_up_secret(pending, &mut req, limit + 1));
    assert_eq!((fetch.index, fetch.provider, fetch.uri()), (1, 1, TOKEN));

    // It is stored by the time of the reply, and looked up again by the time it is after that.
    let step = egress.secret_received(fetch, Ok(b"second".to_vec()), &mut req, limit + 5);
    assert!(matches!(step, Step::Proceed));
    assert_eq!(values(&req, "x-one"), ["Bearer first"]);
    assert_eq!(values(&req, "x-two"), ["Bearer second"]);
    let later = limit + 5 + DEFAULT_CREDENTIAL_CACHE_TTL;
    assert!(matches!(decided(&mut egress, effects(), &mut request(), later), Step::Proceed));
    assert!(matches!(
        decided(&mut egress, effects(), &mut request(), later + 1),
        Step::FetchSecret(_)
    ));
}

#[test]
fn a_secret_stored_and_outlived_within_one_request_is_fetched_again() {
    let mut egress = egress();
    let mut req = request();
    let effects = policy(vec![injection("x-one", TOKEN), injection("x-two", TOKEN)]);
    let fetch = fetched(decided(&mut egress, effects, &mut req, NOW));
    let step = egress.secret_received(fetch, Ok(b"first".to_vec()), &mut req, NOW);
    let Step::LookUpSecret(pending) = step else { panic!("no lookup") };
    let late = NOW + DEFAULT_CREDENTIAL_CACHE_TTL + 1;
    assert_eq!(fetched(egress.look_up_secret(pending, &mut req, late)).index, 1);
}

#[test]
fn a_request_takes_at_most_two_events_for_each_effect() {
    let mut egress = egress();
    let mut req = request();
    let uris = [TOKEN, "ate-secret://vault.example/a", TOKEN, "ate-secret://vault.example/b"];
    let effects = uris.iter().map(|uri| injection("x-one", uri)).collect();
    let mut step = egress.policy_received(policy(effects), &req);
    let mut events: usize = 0;
    loop {
        step = match step {
            Step::LookUpSecret(pending) => egress.look_up_secret(pending, &mut req, NOW),
            Step::FetchSecret(pending) => {
                let secret = pending.uri().as_bytes().to_vec();
                egress.secret_received(pending, Ok(secret), &mut req, NOW)
            }
            Step::Proceed => break,
            _ => panic!("refused"),
        };
        events += 1;
    }
    assert_eq!(events, 7);
    assert_eq!(values(&req, "x-one"), ["Bearer ate-secret://vault.example/b"]);
}

#[test]
fn actors_do_not_get_the_secrets_of_others() {
    let mut egress = egress();
    let effects = || policy(vec![injection("authorization", TOKEN)]);
    let mut req = request_of("one");
    let fetch = fetched(decided(&mut egress, effects(), &mut req, NOW));
    received(&mut egress, fetch, Ok(b"for-one".to_vec()), &mut req, NOW);

    let mut req = request_of("two");
    let fetch = fetched(decided(&mut egress, effects(), &mut req, NOW));
    assert_eq!(fetch.actor_spiffe_id, "spiffe://substrate-actor.local/actor/demo/two");
    received(&mut egress, fetch, Ok(b"for-two".to_vec()), &mut req, NOW);
    assert_eq!(values(&req, "authorization"), ["Bearer for-two"]);
}

#[test]
fn several_headers_are_set_in_order() {
    let mut egress = egress();
    let mut req = request();
    let other = "ate-secret://vault.example/other";
    let effects = vec![
        injection("x-one", TOKEN),
        injection("X-Two", other),
        injection("x-three", TOKEN),
        injection("X-ONE", other),
    ];
    let fetch = fetched(decided(&mut egress, policy(effects), &mut req, NOW));
    assert_eq!((fetch.index, fetch.provider, fetch.uri()), (0, 1, TOKEN));
    let step = received(&mut egress, fetch, Ok(b"a".to_vec()), &mut req, NOW);
    let fetch = fetched(step);
    assert_eq!((fetch.index, fetch.provider, fetch.uri()), (1, 0, other));
    assert_eq!(values(&req, "x-one"), ["Bearer a"]);
    let step = received(&mut egress, fetch, Ok(b"b".to_vec()), &mut req, NOW);
    assert!(matches!(step, Step::Proceed));
    assert_eq!(values(&req, "x-one"), ["Bearer b"]);
    assert_eq!(values(&req, "x-two"), ["Bearer b"]);
    assert_eq!(values(&req, "x-three"), ["Bearer a"]);
    assert_eq!(values(&req, "authorization"), ["Bearer actor-supplied", "Bearer again"]);
}

#[test]
fn a_request_without_an_authorized_actor_is_denied() {
    let mut egress = egress();
    let mut req = request();
    req.actor_identity = None;
    let mut log = RequestLog::default();
    let error = egress.apply(&mut log, &req).unwrap_err();
    assert_eq!(error.message(), "missing CONNECT-authorized actor identity");
    assert_eq!(error.http_status(), 403);
    assert!(log.ate_actor_name.is_none() && log.ate_atespace.is_none());
    let error = refused(decided(&mut egress, policy(vec![]), &mut req, NOW));
    assert_eq!(error.message(), "missing CONNECT-authorized actor identity");
}

#[test]
fn without_a_policy_nothing_goes_out() {
    for (code, http_status, what) in [
        (tonic::Code::Unavailable, 503, "unavailable"),
        (tonic::Code::DeadlineExceeded, 503, "unavailable"),
        (tonic::Code::NotFound, 403, "denied"),
    ] {
        let reply = Err(Status::new(code as i32, "no policy"));
        let error = refused(decided(&mut egress(), reply, &mut request(), NOW));
        let shown = tonic::Status::new(code, "no policy").to_string();
        assert_eq!(error.http_status(), http_status);
        assert_eq!(error.message(), format!("actor egress policy {what}: {shown}"));
    }
    let empty = Ok(EgressPolicy::default());
    let error = refused(decided(&mut egress(), empty, &mut request(), NOW));
    assert_eq!(error.message(), "actor egress policy denied destination");
    let mut nowhere = request();
    nowhere.destination = None;
    let error = refused(decided(&mut egress(), policy(vec![]), &mut nowhere, NOW));
    assert_eq!(error.message(), "missing egress destination context");
}

#[test]
fn rules_without_effects_let_requests_through() {
    let everything = EgressRule { all: Some(()), ..Default::default() };
    let mut plain = rule(vec![]);
    plain.hostnames.as_mut().unwrap().effects = None;
    for rule in [everything, plain, rule(vec![])] {
        let step = egress().apply_effects(&actor("my-actor"), &rule);
        assert!(matches!(step, Step::Proceed));
    }
}

#[test]
fn providers_are_found_by_exact_authority_and_in_order() {
    let egress = SubstrateEgress::new(
        0,
        vec![provider("a.example", 1), provider("b.example", 2), provider("b.example", 3)],
    );
    assert_eq!(egress.provider_for_uri("ate-secret://b.example/x").unwrap().target, 2);
    assert_eq!(
        egress.provider_for_uri("ate-secret://c.example/x").unwrap_err().message(),
        "no credential provider configured for c.example"
    );
    assert_eq!(
        egress.provider_for_uri("ate-secret://B.example/x").unwrap_err().message(),
        "no credential provider configured for B.example"
    );
    assert_eq!(
        egress.provider_for_uri("https://a.example/x").unwrap_err().message(),
        "invalid credential URI: https://a.example/x"
    );
}

#[test]
fn effects_without_a_provider_are_denied() {
    for (uri, message) in [
        ("ate-secret://other/x", "no credential provider configured for other"),
        ("other", "invalid credential URI: other"),
    ] {
        let mut req = request();
        let step =
            decided(&mut egress(), policy(vec![injection("x-one", uri)]), &mut req, NOW);
        let error = refused(step);
        assert_eq!(error.message(), message);
        assert_eq!(error.http_status(), 403);
        assert_eq!(req.headers, request().headers);
    }
}

#[test]
fn failed_fetches_keep_availability() {
    for (code, http_status, what) in
        [(tonic::Code::Unavailable, 503, "unavailable"), (tonic::Code::PermissionDenied, 403, "denied")]
    {
        let mut egress = egress();
        let mut req = request();
        let effects = policy(vec![injection("authorization", TOKEN)]);
        let fetch = fetched(decided(&mut egress, effects, &mut req, NOW));
        let reply = Err(Status::new(code as i32, "no secret"));
        let error = refused(received(&mut egress, fetch, reply, &mut req, NOW));
        let shown = tonic::Status::new(code, "no secret").to_string();
        assert_eq!(error.http_status(), http_status);
        assert_eq!(error.message(), format!("credential provider kubernetes.io {what}: {shown}"));
        assert_eq!(req.headers, request().headers);
    }
}

#[test]
fn unusable_secrets_are_refused_and_not_cached() {
    let mut egress = egress();
    let effects = || policy(vec![injection("authorization", TOKEN)]);
    for returned in [&b""[..], b"bad\nsecret"] {
        let mut req = request();
        let fetch = fetched(decided(&mut egress, effects(), &mut req, NOW));
        let error = refused(received(&mut egress, fetch, Ok(returned.to_vec()), &mut req, NOW));
        assert_eq!(error.message(), "credential provider returned an unusable secret");
        assert_eq!(error.http_status(), 503);
        assert_eq!(req.headers, request().headers);
    }
    assert!(matches!(
        decided(&mut egress, effects(), &mut request(), NOW),
        Step::FetchSecret(_)
    ));
}

#[test]
fn protected_headers_stay_as_they_are() {
    let mut egress = egress();
    let mut req = request();
    let effects = || policy(vec![injection("Host", TOKEN)]);
    let fetch = fetched(decided(&mut egress, effects(), &mut req, NOW));
    let step = received(&mut egress, fetch, Ok(b"evil.example".to_vec()), &mut req, NOW);
    let error = refused(step);
    assert_eq!(error.message(), "credential effects cannot modify protected header host");
    assert_eq!(req.headers, request().headers);
    let error = refused(decided(&mut egress, effects(), &mut req, NOW));
    assert_eq!(error.message(), "credential effects cannot modify protected header host");
    assert_eq!(req.headers, request().headers);
}

#[test]
fn invalid_headers_are_refused() {
    let mut egress = egress();
    let mut req = request();
    let fetch = fetched(
        decided(&mut egress, policy(vec![injection("not a name", TOKEN)]), &mut req, NOW),
    );
    let error = refused(received(&mut egress, fetch, Ok(b"x".to_vec()), &mut req, NOW));
    assert_eq!(error.message(), "invalid credential header: invalid HTTP header name");
    let mut bad_prefix = injection("x-one", TOKEN);
    bad_prefix.prefix = "a\nb".to_owned();
    let error = refused(decided(&mut egress, policy(vec![bad_prefix]), &mut req, NOW));
    assert_eq!(
        error.message(),
        "credential header value is invalid: failed to parse header value"
    );
    assert_eq!(error.http_status(), 503);
}

#[test]
fn a_full_header_map_is_reported() {
    let mut egress = egress();
    let mut req = request();
    let mut i: u32 = 0;
    loop {
        let name: http::HeaderName = format!("x-{i}").parse().unwrap();
        if req.headers.try_insert(name, "v".parse().unwrap()).is_err() {
            break;
        }
        i += 1;
    }
    let before = req.headers.len();
    let effects = || policy(vec![injection("x-secret", TOKEN)]);
    let fetch = fetched(decided(&mut egress, effects(), &mut req, NOW));
    let step = received(&mut egress, fetch, Ok(b"x".to_vec()), &mut req, NOW);
    assert!(matches!(step, Step::HeadersFull));
    assert_eq!(req.headers.len(), before);
    let step = decided(&mut egress, effects(), &mut req, NOW);
    assert!(matches!(step, Step::HeadersFull));
    assert!(before > 6_553);
}
