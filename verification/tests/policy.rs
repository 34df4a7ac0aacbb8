use substrate_egress::error::ProxyError;
use substrate_egress::network::IpAddress;
use substrate_egress::policy::{
    hostname_matches, matching_rule, rule_matches, CredentialHeaderInjection, DestinationContext,
    EgressPolicy, EgressRule, EgressRuleEffects, HostnameRule, IpBlockRule,
};
use substrate_egress::request::Request;

fn v4(text: &str) -> IpAddress {
    let net = format!("{text}/32").parse::<ipnet::Ipv4Net>().unwrap();
    IpAddress::V4(net.addr().into())
}

fn v6(text: &str) -> IpAddress {
    let net = format!("{text}/128").parse::<ipnet::Ipv6Net>().unwrap();
    IpAddress::V6(net.addr().into())
}

fn to(address: IpAddress, hostname: Option<&str>) -> DestinationContext {
    DestinationContext { address, port: 443, hostname: hostname.map(Into::into) }
}

fn request(address: &str, hostname: Option<&str>) -> Request {
    Request {
        headers: http::HeaderMap::new(),
        tcp: None,
        tls: None,
        actor_identity: None,
        destination: Some(to(v4(address), hostname)),
    }
}

fn hostnames(patterns: &[&str]) -> EgressRule {
    EgressRule {
        hostnames: Some(HostnameRule {
            patterns: patterns.iter().map(|pattern| pattern.to_string()).collect(),
            ..Default::default()
        }),
        ..Default::default()
    }
}

fn blocks(cidrs: &[&str]) -> EgressRule {
    EgressRule {
        ip_blocks: Some(IpBlockRule {
            cidrs: cidrs.iter().map(|cidr| cidr.to_string()).collect(),
        }),
        ..Default::default()
    }
}

fn denial<T>(result: Result<T, ProxyError>) -> String {
    match result {
        Err(ProxyError::SubstrateEgressDenied(message)) => message,
        _ => panic!("not a denial"),
    }
}

#[test]
fn cidr_rules_authorize_only_matching_destinations() {
    let policy = EgressPolicy {
        rules: vec![EgressRule {
            ip_blocks: Some(IpBlockRule { cidrs: vec!["192.0.2.0/24".to_owned()] }),
            ..Default::default()
        }],
    };
    assert!(matching_rule(&policy, &request("192.0.2.10", None)).is_ok());
    assert!(matching_rule(&policy, &request("198.51.100.10", None)).is_err());
}

#[test]
fn hostname_rules_match_exact_and_single_label_wildcards() {
    let policy = EgressPolicy {
        rules: vec![EgressRule {
            hostnames: Some(HostnameRule {
                patterns: vec!["api.example.com".to_owned(), "*.example.net".to_owned()],
                ..Default::default()
            }),
            ..Default::default()
        }],
    };
    assert!(matching_rule(&policy, &request("192.0.2.1", Some("api.example.com"))).is_ok());
    assert!(matching_rule(&policy, &request("192.0.2.1", Some("one.example.net"))).is_ok());
    assert!(
        matching_rule(&policy, &request("192.0.2.1", Some("nested.one.example.net"))).is_err()
    );
}

fn injecting(uri: &str) -> EgressRule {
    EgressRule {
        hostnames: Some(HostnameRule {
            patterns: vec!["api.example.com".to_owned()],
            effects: Some(EgressRuleEffects {
                inject_static_headers: vec![CredentialHeaderInjection {
                    header: "Authorization".to_owned(),
                    prefix: "Bearer ".to_owned(),
                    credential_uri: uri.to_owned(),
                }],
            }),
        }),
        ..Default::default()
    }
}

#[test]
fn first_matching_hostname_rule_controls_effects() {
    let policy = EgressPolicy {
        rules: vec![
            injecting("ate-secret://example/first/token"),
            injecting("ate-secret://example/second/token"),
        ],
    };
    let req = request("198.51.100.10", Some("api.example.com"));
    let matched = matching_rule(&policy, &req).unwrap();
    assert_eq!(
        matched.hostnames.as_ref().unwrap().effects.as_ref().unwrap().inject_static_headers[0]
            .credential_uri,
        "ate-secret://example/first/token"
    );
}

#[test]
fn first_matching_rule_wins_across_matcher_types() {
    let policy =
        EgressPolicy { rules: vec![blocks(&["192.0.2.0/24"]), hostnames(&["api.example.com"])] };
    let req = request("192.0.2.10", Some("api.example.com"));
    let matched = matching_rule(&policy, &req).unwrap();
    assert!(matched.ip_blocks.is_some());
}

#[test]
fn all_matches_only_after_earlier_rules_do_not_match() {
    let policy = EgressPolicy {
        rules: vec![
            hostnames(&["api.example.com"]),
            EgressRule { all: Some(()), ..Default::default() },
        ],
    };
    let req = request("198.51.100.10", Some("api.example.com"));
    let matched = matching_rule(&policy, &req).unwrap();
    assert!(matched.hostnames.is_some());

    let req = request("198.51.100.10", Some("other.example.com"));
    let matched = matching_rule(&policy, &req).unwrap();
    assert!(matched.all.is_some());
}

#[test]
fn no_matching_rule_denies() {
    let policy = EgressPolicy { rules: vec![hostnames(&["api.example.com"])] };
    let req = request("198.51.100.10", Some("other.example.com"));
    assert!(matching_rule(&policy, &req).is_err());
    assert_eq!(
        denial(matching_rule(&policy, &req)),
        "actor egress policy denied destination"
    );
}

#[test]
fn a_request_without_a_destination_is_denied() {
    let policy = EgressPolicy { rules: vec![EgressRule { all: Some(()), ..Default::default() }] };
    let mut req = request("198.51.100.10", None);
    req.destination = None;
    assert_eq!(denial(matching_rule(&policy, &req)), "missing egress destination context");
}

#[test]
fn an_empty_policy_or_rule_lets_nothing_through() {
    let req = request("198.51.100.10", Some("api.example.com"));
    assert!(matching_rule(&EgressPolicy::default(), &req).is_err());
    let policy = EgressPolicy { rules: vec![EgressRule::default()] };
    assert!(matching_rule(&policy, &req).is_err());
    let policy = EgressPolicy { rules: vec![hostnames(&[]), blocks(&[])] };
    assert!(matching_rule(&policy, &req).is_err());
}

#[test]
fn rules_behind_the_match_do_not_matter() {
    let req = request("192.0.2.10", Some("api.example.com"));
    let policy = EgressPolicy {
        rules: vec![blocks(&["192.0.2.0/24"]), blocks(&["nonsense"]), hostnames(&["*.example.com"])],
    };
    assert!(matching_rule(&policy, &req).unwrap().ip_blocks.is_some());
}

#[test]
fn a_malformed_block_denies_unless_an_earlier_block_holds_the_address() {
    let inside = to(v4("192.0.2.10"), None);
    assert!(rule_matches(&blocks(&["192.0.2.0/24", "nonsense"]), &inside).unwrap());
    assert_eq!(
        denial(rule_matches(&blocks(&["nonsense", "192.0.2.0/24"]), &inside)),
        "invalid actor egress CIDR: invalid IP address syntax"
    );
    assert!(rule_matches(&blocks(&["198.51.100.0/24", "192.0.2.0/24"]), &inside).unwrap());
    let policy = EgressPolicy {
        rules: vec![blocks(&["nonsense"]), EgressRule { all: Some(()), ..Default::default() }],
    };
    assert_eq!(
        denial(matching_rule(&policy, &request("192.0.2.10", None))),
        "invalid actor egress CIDR: invalid IP address syntax"
    );
}

#[test]
fn blocks_of_one_family_hold_no_address_of_the_other() {
    let rule = blocks(&["0.0.0.0/0"]);
    assert!(rule_matches(&rule, &to(v4("203.0.113.9"), None)).unwrap());
    assert!(!rule_matches(&rule, &to(v6("2001:db8::1"), None)).unwrap());
    let rule = blocks(&["2001:db8::/32"]);
    assert!(rule_matches(&rule, &to(v6("2001:db8:ffff::1"), None)).unwrap());
    assert!(!rule_matches(&rule, &to(v6("2001:db9::1"), None)).unwrap());
    assert!(!rule_matches(&rule, &to(v4("203.0.113.9"), None)).unwrap());
}

#[test]
fn the_first_matcher_of_a_rule_decides_alone() {
    let mut rule = hostnames(&["api.example.com"]);
    rule.ip_blocks = blocks(&["0.0.0.0/0"]).ip_blocks;
    rule.all = Some(());
    assert!(rule_matches(&rule, &to(v4("192.0.2.1"), Some("api.example.com"))).unwrap());
    assert!(!rule_matches(&rule, &to(v4("192.0.2.1"), Some("other.example.com"))).unwrap());
    assert!(!rule_matches(&rule, &to(v4("192.0.2.1"), None)).unwrap());
    rule.hostnames = None;
    assert!(rule_matches(&rule, &to(v4("192.0.2.1"), None)).unwrap());
    rule.ip_blocks = blocks(&["198.51.100.0/24"]).ip_blocks;
    assert!(!rule_matches(&rule, &to(v4("192.0.2.1"), None)).unwrap());
}

#[test]
fn a_wildcard_stands_for_one_label() {
    assert!(hostname_matches("*.example.com", "a.example.com"));
    assert!(hostname_matches("*.example.com", "*.example.com"));
    assert!(!hostname_matches("*.example.com", "example.com"));
    assert!(!hostname_matches("*.example.com", ".example.com"));
    assert!(!hostname_matches("*.example.com", "a.b.example.com"));
    assert!(!hostname_matches("*.example.com", "aexample.com"));
    assert!(!hostname_matches("*.example.com", "a.example.org"));
    assert!(!hostname_matches("*.example.com", "a.EXAMPLE.com"));
    assert!(hostname_matches("*.", "label."));
    assert!(!hostname_matches("*.", "."));
    assert!(hostname_matches("*.b\u{fc}cher.example", "stra\u{df}e.b\u{fc}cher.example"));
}

#[test]
fn other_patterns_match_themselves_only() {
    assert!(hostname_matches("api.example.com", "api.example.com"));
    assert!(!hostname_matches("api.example.com", "api.example.com."));
    assert!(!hostname_matches("API.example.com", "api.example.com"));
    assert!(hostname_matches("*", "*"));
    assert!(!hostname_matches("*", "example"));
    assert!(!hostname_matches("a*.example.com", "ab.example.com"));
    assert!(hostname_matches("", ""));
}
