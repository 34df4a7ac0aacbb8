use substrate_egress::credential::{
    actor_spiffe_uri, credential_header, credential_provider_error, credential_secret,
    protected_credential_header, provider_name,
};
use substrate_egress::error::{ProxyError, Status};
use substrate_egress::policy::CredentialHeaderInjection;
use tonic::Code;

const URI: &str = "ate-secret://kubernetes.io/default/token";

fn injection(header: &str, prefix: &str) -> CredentialHeaderInjection {
    CredentialHeaderInjection {
        header: header.to_owned(),
        prefix: prefix.to_owned(),
        credential_uri: URI.to_owned(),
    }
}

fn denial<T>(result: Result<T, ProxyError>) -> String {
    match result {
        Err(ProxyError::SubstrateEgressDenied(message)) => message,
        _ => panic!("not a denial"),
    }
}

fn outage<T>(result: Result<T, ProxyError>) -> String {
    match result {
        Err(ProxyError::SubstrateEgressUnavailable(message)) => message,
        _ => panic!("not an outage"),
    }
}

#[test]
fn credential_uri_uses_the_exact_authority_as_provider_name() {
    assert_eq!(provider_name("ate-secret://kubernetes.io/default/token"), Some("kubernetes.io"));
    assert_eq!(provider_name("https://kubernetes.io/default/token"), None);
    assert_eq!(provider_name("substrate-secret://kubernetes.io/default/token"), None);
    assert_eq!(provider_name("ate-secret:///default/token"), None);
    assert_eq!(provider_name("ate-secret://kubernetes.io:443/token"), None);
}

#[test]
fn an_authority_holds_no_user_port_query_or_fragment() {
    assert_eq!(provider_name("ate-secret://kubernetes.io"), Some("kubernetes.io"));
    assert_eq!(provider_name("ate-secret://kubernetes.io/"), Some("kubernetes.io"));
    assert_eq!(provider_name("ate-secret://a/b?c#d@e:f"), Some("a"));
    assert_eq!(provider_name("ate-secret://me@kubernetes.io/token"), None);
    assert_eq!(provider_name("ate-secret://kubernetes.io?x/token"), None);
    assert_eq!(provider_name("ate-secret://kubernetes.io#x/token"), None);
    assert_eq!(provider_name("ate-secret://"), None);
    assert_eq!(provider_name("ate-secret:/"), None);
    assert_eq!(provider_name(""), None);
    assert_eq!(provider_name("ATE-SECRET://kubernetes.io"), None);
    assert_eq!(provider_name("ate-secret://K\u{fc}bel.io/x"), Some("K\u{fc}bel.io"));
}

#[test]
fn actors_have_spiffe_ids_of_their_own() {
    assert_eq!(
        actor_spiffe_uri("demo", "my-actor"),
        "spiffe://substrate-actor.local/actor/demo/my-actor"
    );
    assert_ne!(actor_spiffe_uri("demo", "one"), actor_spiffe_uri("demo", "two"));
    assert_ne!(actor_spiffe_uri("one", "x"), actor_spiffe_uri("two", "x"));
}

#[test]
fn credential_header_overwrites_with_a_sensitive_prefixed_secret() {
    let header = credential_header(
        &CredentialHeaderInjection {
            header: "authorization".to_owned(),
            prefix: "Bearer ".to_owned(),
            credential_uri: "ate-secret://kubernetes.io/default/token".to_owned(),
        },
        b"token\n".to_vec(),
    )
    .unwrap_or_else(|_| panic!("refused"));
    assert_eq!(header.name, http::header::AUTHORIZATION.as_str());
    assert_eq!(header.value, b"Bearer token");
    assert!(header.sensitive);
}

#[test]
fn credential_headers_cannot_modify_routing_or_framing_headers() {
    for header in [
        "host",
        "content-length",
        "connection",
        "keep-alive",
        "proxy-authenticate",
        "proxy-authorization",
        "te",
        "trailer",
        "transfer-encoding",
        "upgrade",
    ] {
        let injection = CredentialHeaderInjection {
            header: header.to_owned(),
            prefix: String::new(),
            credential_uri: "ate-secret://kubernetes.io/default/token".to_owned(),
        };
        assert!(credential_header(&injection, b"token".to_vec()).is_err());
        assert!(protected_credential_header(header));
    }
}

#[test]
fn protection_goes_by_the_lower_case_name() {
    assert_eq!(
        denial(credential_header(&injection("Content-Length", ""), b"7".to_vec())),
        "credential effects cannot modify protected header content-length"
    );
    assert!(!protected_credential_header("authorization"));
    assert!(!protected_credential_header("Host"));
    assert!(!protected_credential_header("hosts"));
}

#[test]
fn credential_provider_errors_preserve_availability_semantics() {
    for code in [Code::Unavailable, Code::DeadlineExceeded] {
        let response = credential_provider_error(
            "ate-secret://kubernetes.io/default/token",
            &Status::new(code as i32, "provider failed"),
        );
        assert_eq!(response.http_status(), http::StatusCode::SERVICE_UNAVAILABLE.as_u16());
    }

    let response = credential_provider_error(
        "ate-secret://kubernetes.io/default/token",
        &Status::new(Code::PermissionDenied as i32, "not allowed"),
    );
    assert_eq!(response.http_status(), http::StatusCode::FORBIDDEN.as_u16());
}

#[test]
fn provider_errors_name_the_provider_and_the_status() {
    let shown = tonic::Status::new(Code::Unavailable, "provider failed").to_string();
    assert_eq!(
        credential_provider_error(URI, &Status::new(14, "provider failed")).message(),
        format!("credential provider kubernetes.io unavailable: {shown}")
    );
    let shown = tonic::Status::new(Code::PermissionDenied, "not allowed").to_string();
    assert_eq!(
        credential_provider_error("nonsense", &Status::new(7, "not allowed")).message(),
        format!("credential provider unknown denied: {shown}")
    );
}

#[test]
fn malformed_credential_secrets_fail_closed() {
    let injection = CredentialHeaderInjection {
        header: "authorization".to_owned(),
        prefix: "Bearer ".to_owned(),
        credential_uri: "ate-secret://kubernetes.io/default/token".to_owned(),
    };
    assert!(credential_header(&injection, Vec::new()).is_err());
    assert!(credential_header(&injection, b"bad\nsecret".to_vec()).is_err());
}

#[test]
fn one_line_end_is_taken_off_a_secret() {
    for (returned, secret) in [
        (&b"token"[..], &b"token"[..]),
        (b"token\n", b"token"),
        (b"token\r\n", b"token"),
        (b"token\r", b"token"),
        (b" token ", b" token "),
        (b"\xff\x80", b"\xff\x80"),
    ] {
        assert_eq!(credential_secret(returned.to_vec()).unwrap(), secret);
        assert_eq!(credential_secret(secret.to_vec()).unwrap(), secret);
    }
}

#[test]
fn unusable_secrets_are_an_outage() {
    for returned in [
        &b""[..],
        b"\n",
        b"\r\n",
        b"token\n\n",
        b"token\n\r",
        b"a\tb",
        b"a\0b",
        b"a\x7fb",
        b"a\rb",
    ] {
        assert_eq!(
            outage(credential_secret(returned.to_vec())),
            "credential provider returned an unusable secret"
        );
        assert_eq!(
            outage(credential_header(&injection("authorization", ""), returned.to_vec())),
            "credential provider returned an unusable secret"
        );
    }
}

#[test]
fn header_names_are_checked_and_lowered() {
    let header = credential_header(&injection("X-Api-Key", ""), b"k".to_vec())
        .unwrap_or_else(|_| panic!("refused"));
    assert_eq!(header.name, "x-api-key");
    assert_eq!(header.value, b"k");
    let odd = "!#$%&'*+-.^_`|~0Z";
    let header = credential_header(&injection(odd, ""), b"k".to_vec())
        .unwrap_or_else(|_| panic!("refused"));
    assert_eq!(header.name, "!#$%&'*+-.^_`|~0z");
    for name in ["", "with space", "colon:", "\u{fc}ber", "a\"b", "a(b)", "a/b", "a@b", "a{b}", "a\nb"] {
        assert_eq!(
            denial(credential_header(&injection(name, ""), b"k".to_vec())),
            "invalid credential header: invalid HTTP header name"
        );
    }
    let long = format!("{}Z", "Ab-".repeat(40));
    let header = credential_header(&injection(&long, ""), b"k".to_vec())
        .unwrap_or_else(|_| panic!("refused"));
    assert_eq!(header.name, long.to_lowercase());
    let long = format!("{} ", "ab-".repeat(40));
    assert!(credential_header(&injection(&long, ""), b"k".to_vec()).is_err());
    let longest = "a".repeat(65_535);
    assert!(credential_header(&injection(&longest, ""), b"k".to_vec()).is_ok());
    let longer = "a".repeat(65_536);
    assert!(credential_header(&injection(&longer, ""), b"k".to_vec()).is_err());
}

#[test]
fn the_prefix_is_checked_as_part_of_the_value() {
    let header = credential_header(&injection("authorization", "K\u{fc}\t"), b"k".to_vec())
        .unwrap_or_else(|_| panic!("refused"));
    assert_eq!(header.value, "K\u{fc}\tk".as_bytes());
    for prefix in ["a\nb", "a\r", "\0", "\x7f"] {
        assert_eq!(
            outage(credential_header(&injection("authorization", prefix), b"k".to_vec())),
            "credential header value is invalid: failed to parse header value"
        );
    }
}

#[test]
fn the_name_is_checked_before_the_secret() {
    assert_eq!(
        denial(credential_header(&injection("host", ""), Vec::new())),
        "credential effects cannot modify protected header host"
    );
    assert_eq!(
        denial(credential_header(&injection("", ""), Vec::new())),
        "invalid credential header: invalid HTTP header name"
    );
}
