use rcgen::{CertificateParams, CustomExtension, KeyPair, SanType};
use substrate_egress::actor::{
    identity_of_certificate, identity_of_parsed, identity_of_uri, valid_resource_name, Actor,
    ActorState, ActorStatus, EgressActorResolution, ResourceMetadata,
};
use substrate_egress::certificate::{AltName, AltNames, Certificate};
use substrate_egress::error::{ProxyError, Status};
use substrate_egress::request::{
    ActorRef, ConnectionInfo, Request, SocketAddress, TcpConnectionInfo, TlsConnectionInfo, TlsInfo,
};

const ATEOM: &str = "spiffe://substrate-actor.local/ateom-for-actor/demo/my-actor";

fn bare_request() -> Request {
    Request {
        headers: http::HeaderMap::new(),
        tcp: None,
        tls: None,
        actor_identity: None,
        destination: None,
    }
}

fn tls(certificate: String) -> TlsConnectionInfo {
    TlsConnectionInfo { src_identity: Some(TlsInfo { certificate: Some(certificate) }) }
}

const TCP: TcpConnectionInfo = TcpConnectionInfo {
    peer_addr: SocketAddress::V4(0xC000_020A, 40_000),
    local_addr: SocketAddress::V6(1, 15_012, 0, 7),
};

fn over(tls: Option<TlsConnectionInfo>) -> ConnectionInfo {
    ConnectionInfo { tcp: TCP, tls }
}

fn pem_of(params: CertificateParams) -> String {
    params.self_signed(&KeyPair::generate().unwrap()).unwrap().pem()
}

fn request_with_identity(uris: &[&str]) -> Request {
    let mut params = CertificateParams::default();
    params.subject_alt_names =
        uris.iter().map(|uri| SanType::URI((*uri).try_into().unwrap())).collect();
    request_with_certificate(params)
}

fn request_with_certificate(params: CertificateParams) -> Request {
    let mut req = bare_request();
    req.tls = Some(tls(pem_of(params)));
    req
}

fn identity(req: &Request) -> Result<ActorRef, ProxyError> {
    EgressActorResolution::<()>::identity(req)
}

fn denial<T>(result: Result<T, ProxyError>) -> String {
    match result {
        Err(ProxyError::SubstrateEgressDenied(message)) => message,
        _ => panic!("not a denial"),
    }
}

#[test]
fn actor_identity_is_parsed_from_the_ateom_uri_without_an_extension() {
    for (atespace, name) in [
        ("demo", "my-actor"),
        ("fd6cab8c-17c8-4c9e-8893-28e28aff724b", "045841a7-5dcb-47eb-a76f-6d8460bfe009"),
    ] {
        let uri = format!("spiffe://substrate-actor.local/ateom-for-actor/{atespace}/{name}");
        let identity = identity(&request_with_identity(&[&uri])).unwrap();
        assert_eq!(identity.atespace, atespace);
        assert_eq!(identity.name, name);
    }
}

#[test]
fn actor_identity_rejects_other_purposes_and_malformed_uris() {
    for uri in [
        "spiffe://substrate-actor.local/actor/demo/my-actor",
        "spiffe://substrate-actor.local/atespace/demo/actor/my-actor",
        "spiffe://other.local/ateom-for-actor/demo/my-actor",
        "https://substrate-actor.local/ateom-for-actor/demo/my-actor",
        "spiffe://user@substrate-actor.local/ateom-for-actor/demo/my-actor",
        "spiffe://substrate-actor.local:443/ateom-for-actor/demo/my-actor",
        "spiffe://substrate-actor.local/ateom-for-actor/demo/my-actor?query",
        "spiffe://substrate-actor.local/ateom-for-actor/demo/my-actor#fragment",
        "spiffe://substrate-actor.local/ateom-for-actor/demo/my-actor/",
        "spiffe://substrate-actor.local/ateom-for-actor/demo/my-actor/extra",
        "spiffe://substrate-actor.local/ateom-for-actor//my-actor",
        "spiffe://substrate-actor.local/ateom-for-actor/demo/",
        "spiffe://substrate-actor.local/ateom-for-actor/demo",
        "spiffe://substrate-actor.local/ateom-for-actor/de%2Fmo/my-actor",
        "spiffe://substrate-actor.local/ateom-for-actor/demo/my%2Factor",
        "spiffe://substrate-actor.local/ateom-for-actor/../my-actor",
        "spiffe://substrate-actor.local/ateom-for-actor/demo/..",
        "spiffe://substrate-actor.local/ateom-for-actor/Demo/my-actor",
        "spiffe://substrate-actor.local/ateom-for-actor/demo/My-Actor",
        "spiffe://substrate-actor.local/ateom-for-actor/-demo/my-actor",
        "spiffe://substrate-actor.local/ateom-for-actor/demo/my-actor-",
    ] {
        assert!(identity(&request_with_identity(&[uri])).is_err(), "{uri}");
        assert_eq!(denial(identity_of_uri(uri)), "invalid ateom-for-actor SPIFFE identity");
    }
}

#[test]
fn actor_identity_requires_exactly_one_uri_san() {
    let uri = "spiffe://substrate-actor.local/ateom-for-actor/demo/my-actor";
    for uris in [vec![], vec![uri, uri], vec![uri, "https://example.com"]] {
        assert!(identity(&request_with_identity(&uris)).is_err());
    }
    let params = CertificateParams::new(vec!["example.com".to_owned()]).unwrap();
    assert!(identity(&request_with_certificate(params)).is_err());
}

#[test]
fn actor_identity_rejects_ca_certificates() {
    let mut params = CertificateParams::default();
    params.is_ca = rcgen::IsCa::Ca(rcgen::BasicConstraints::Unconstrained);
    params.subject_alt_names.push(SanType::URI(
        "spiffe://substrate-actor.local/ateom-for-actor/demo/my-actor".try_into().unwrap(),
    ));
    assert!(identity(&request_with_certificate(params)).is_err());
}

#[test]
fn legacy_extension_cannot_authorize_a_tunnel() {
    let mut params = CertificateParams::default();
    params.custom_extensions.push(CustomExtension::from_oid_content(
        &[1, 3, 6, 1, 4, 1, 11129, 2, 12, 2],
        br#"{"Atespace":"demo","ActorName":"my-actor","ActorUid":"uid-1","Purpose":"atunnel"}"#
            .to_vec(),
    ));
    assert!(identity(&request_with_certificate(params)).is_err());
}

#[test]
fn actor_identity_requires_an_authenticated_certificate() {
    let mut req = bare_request();
    req.headers.insert(
        "x-forwarded-client-cert",
        "spiffe://substrate-actor.local/ateom-for-actor/demo/my-actor".parse().unwrap(),
    );
    assert!(identity(&req).is_err());
    req.tls = Some(TlsConnectionInfo::default());
    assert!(identity(&req).is_err());
    assert_eq!(denial(identity(&req)), "missing authenticated actor certificate");
    req.tls = Some(TlsConnectionInfo { src_identity: Some(TlsInfo::default()) });
    assert_eq!(denial(identity(&req)), "missing authenticated actor certificate");
}

#[test]
fn each_unfit_certificate_has_its_own_message() {
    let message = |params| denial(identity(&request_with_certificate(params)));
    let uris = |uris: &[&str]| denial(identity(&request_with_identity(uris)));
    assert_eq!(uris(&[]), "invalid ateom-for-actor SPIFFE identity");
    assert_eq!(uris(&[ATEOM, ATEOM]), "actor certificate has multiple URI SANs");
    let mut params = CertificateParams::default();
    params.is_ca = rcgen::IsCa::Ca(rcgen::BasicConstraints::Unconstrained);
    assert_eq!(message(params), "actor certificate is a CA certificate");
    let params = CertificateParams::new(vec!["example.com".to_owned()]).unwrap();
    assert_eq!(message(params), "invalid ateom-for-actor SPIFFE identity");
}

#[test]
fn other_names_beside_the_uri_are_passed_over() {
    let mut params = CertificateParams::new(vec!["example.com".to_owned()]).unwrap();
    params.subject_alt_names.push(SanType::URI(ATEOM.try_into().unwrap()));
    let actor = identity(&request_with_certificate(params)).unwrap();
    assert_eq!((actor.atespace.as_str(), actor.name.as_str()), ("demo", "my-actor"));
}

#[test]
fn texts_that_are_no_certificates_are_denied_with_the_reason() {
    let mut req = bare_request();
    let reason = pem::parse("nonsense".as_bytes()).unwrap_err().to_string();
    req.tls = Some(tls("nonsense".to_owned()));
    assert_eq!(denial(identity(&req)), format!("invalid actor certificate: {reason}"));

    let garbage = pem::encode(&pem::Pem::new("CERTIFICATE", vec![1, 2, 3]));
    let reason = x509_parser::parse_x509_certificate(&[1, 2, 3]).unwrap_err().to_string();
    req.tls = Some(tls(garbage));
    assert_eq!(denial(identity(&req)), format!("invalid actor certificate: {reason}"));

    assert_eq!(
        denial(identity_of_parsed(Err("why".to_owned()))),
        "invalid actor certificate: why"
    );
}

#[test]
fn malformed_alternative_names_name_no_actor() {
    let mut params = CertificateParams::default();
    params.custom_extensions.push(CustomExtension::from_oid_content(
        &[2, 5, 29, 17],
        vec![0xff, 0xff, 0xff],
    ));
    assert_eq!(
        denial(identity(&request_with_certificate(params))),
        "invalid ateom-for-actor SPIFFE identity"
    );
}

#[test]
fn actors_are_read_off_what_a_certificate_holds() {
    let with = |is_ca, alt_names| identity_of_certificate(&Certificate { is_ca, alt_names });
    let uri = || AltName::Uri(ATEOM.to_owned());
    let actor = with(false, AltNames::Listed(vec![AltName::Other, uri(), AltName::Other])).unwrap();
    assert_eq!((actor.atespace.as_str(), actor.name.as_str()), ("demo", "my-actor"));
    assert_eq!(
        denial(with(true, AltNames::Listed(vec![uri()]))),
        "actor certificate is a CA certificate"
    );
    assert_eq!(
        denial(with(false, AltNames::Listed(vec![uri(), AltName::Uri(String::new())]))),
        "actor certificate has multiple URI SANs"
    );
    for names in [AltNames::Invalid, AltNames::Absent, AltNames::Listed(vec![AltName::Other])] {
        assert_eq!(denial(with(false, names)), "invalid ateom-for-actor SPIFFE identity");
    }
}

#[test]
fn resource_names_are_lower_case_labels() {
    let longest = "a".repeat(63);
    for name in ["a", "0", "my-actor", "a--b", "045841a7-5dcb", longest.as_str()] {
        assert!(valid_resource_name(name), "{name}");
    }
    let too_long = "a".repeat(64);
    for name in ["", "-", "-a", "a-", "A", "a.b", "a_b", "a/b", "a b", "\u{fc}", too_long.as_str()] {
        assert!(!valid_resource_name(name), "{name}");
    }
}

fn actor() -> ActorRef {
    ActorRef { atespace: "demo".to_owned(), name: "my-actor".to_owned() }
}

fn reported(uid: &str, state: ActorState) -> Actor {
    Actor {
        metadata: Some(ResourceMetadata { uid: uid.to_owned() }),
        status: Some(ActorStatus { state }),
    }
}

#[test]
fn a_running_actor_is_authorized_under_its_own_name() {
    let resolution = EgressActorResolution { target: () };
    let reply = Ok(reported("uid-1", ActorState::Running));
    let identity = resolution.authorize(&actor(), reply).unwrap();
    assert_eq!(identity.atespace, "demo");
    assert_eq!(identity.actor_name, "my-actor");
    assert_eq!(identity.actor_uid.as_deref(), Some("uid-1"));

    let identity = resolution.authorize(&actor(), Ok(reported("", ActorState::Running))).unwrap();
    assert_eq!(identity.actor_uid, None);
    let mut nameless = reported("uid-1", ActorState::Running);
    nameless.metadata = None;
    assert_eq!(resolution.authorize(&actor(), Ok(nameless)).unwrap().actor_uid, None);
}

#[test]
fn actors_in_any_other_state_are_denied() {
    let resolution = EgressActorResolution { target: () };
    for state in [ActorState::Suspended, ActorState::Other(0)] {
        let reply = Ok(reported("uid-1", state));
        assert_eq!(denial(resolution.authorize(&actor(), reply)), "actor is not running");
    }
    let mut stateless = reported("uid-1", ActorState::Running);
    stateless.status = None;
    assert_eq!(denial(resolution.authorize(&actor(), Ok(stateless))), "actor is not running");
}

#[test]
fn failed_identity_checks_keep_availability() {
    let resolution = EgressActorResolution { target: () };
    for (code, http_status, what) in [
        (tonic::Code::NotFound, 403, "denied"),
        (tonic::Code::Unavailable, 503, "unavailable"),
        (tonic::Code::DeadlineExceeded, 503, "unavailable"),
    ] {
        let reply = Err(Status::new(code as i32, "GetActor failed"));
        let error = resolution.authorize(&actor(), reply).unwrap_err();
        let shown = tonic::Status::new(code, "GetActor failed").to_string();
        assert_eq!(error.http_status(), http_status);
        assert_eq!(error.message(), format!("actor identity check {what}: {shown}"));
    }
}

/// How a CONNECT with this certificate is answered, where the control plane gives this reply.
fn connect_status(uri: &str, reply: Result<Actor, Status>) -> u16 {
    let mut params = CertificateParams::default();
    params.subject_alt_names.push(SanType::URI(uri.try_into().unwrap()));
    let resolution = EgressActorResolution { target: () };
    let mut req = bare_request();
    let actor = match resolution.authorize_connect(over(Some(tls(pem_of(params)))), &mut req) {
        Ok(actor) => actor,
        Err(error) => return error.http_status(),
    };
    assert_eq!((actor.atespace.as_str(), actor.name.as_str()), ("demo", "my-actor"));
    match resolution.authorize(&actor, reply) {
        Ok(_) => 200,
        Err(error) => error.http_status(),
    }
}

#[test]
fn invalid_or_unavailable_actors_are_rejected_at_connect_time() {
    let running = || Ok(reported("uid-1", ActorState::Running));
    let failed = |code: tonic::Code| Err(Status::new(code as i32, "GetActor failed"));
    assert_eq!(connect_status(ATEOM, failed(tonic::Code::NotFound)), 403);
    assert_eq!(
        connect_status("spiffe://substrate-actor.local/actor/demo/my-actor", running()),
        403
    );
    assert_eq!(connect_status(ATEOM, Ok(reported("uid-1", ActorState::Suspended))), 403);
    assert_eq!(connect_status(ATEOM, failed(tonic::Code::Unavailable)), 503);
    assert_eq!(connect_status(ATEOM, running()), 200);
}

#[test]
fn a_connection_without_tls_leaves_the_tls_of_the_request() {
    let resolution = EgressActorResolution { target: () };
    let mut req = request_with_identity(&[ATEOM]);
    assert_eq!(resolution.authorize_connect(over(None), &mut req).unwrap().name, "my-actor");
    let mut req = bare_request();
    let refused = resolution.authorize_connect(over(None), &mut req);
    assert_eq!(denial(refused), "missing authenticated actor certificate");
    assert!(req.tls.is_none());
    let mut req = request_with_identity(&[ATEOM]);
    let taken_over = resolution.authorize_connect(over(Some(TlsConnectionInfo::default())), &mut req);
    assert_eq!(denial(taken_over), "missing authenticated actor certificate");
}

#[test]
fn the_connection_is_taken_over_whatever_comes_of_it() {
    let resolution = EgressActorResolution { target: () };
    let mut req = request_with_identity(&[ATEOM]);
    req.tcp = Some(TcpConnectionInfo { peer_addr: TCP.local_addr, local_addr: TCP.peer_addr });
    assert!(resolution.authorize_connect(over(None), &mut req).is_ok());
    assert_eq!(req.tcp, Some(TCP));

    let mut req = bare_request();
    let refused = resolution.authorize_connect(over(Some(tls("nonsense".to_owned()))), &mut req);
    assert!(refused.is_err());
    assert_eq!(req.tcp, Some(TCP));
    let certificate = req.tls.unwrap().src_identity.unwrap().certificate;
    assert_eq!(certificate.as_deref(), Some("nonsense"));
}
