//! Egress policies: which rule, if any, lets an actor reach a destination.

use vstd::prelude::*;

use crate::error::{denied, seen, ProxyError, Refusal};
use crate::network::{decide_cidr, network_decision, parsed_network, IpAddress};
use crate::request::Request;
use crate::text::{chars_of, same_text};

verus! {

/// The egress policy of an actor: rules in order of precedence.
#[derive(Debug, Default)]
pub struct EgressPolicy {
    /// The rules.
    pub rules: Vec<EgressRule>,
}

/// A rule. The first of its matchers that is present decides.
#[derive(Debug, Default)]
pub struct EgressRule {
    /// Matches by host name.
    pub hostnames: Option<HostnameRule>,
    /// Matches by address.
    pub ip_blocks: Option<IpBlockRule>,
    /// Matches everything.
    pub all: Option<()>,
}

/// Host names, and what to do to a request for one of them.
#[derive(Debug, Default)]
pub struct HostnameRule {
    /// Host names, or `*.` and a domain for the names one label below it.
    pub patterns: Vec<String>,
    /// What to do to the request.
    pub effects: Option<EgressRuleEffects>,
}

/// Blocks of addresses.
#[derive(Debug, Default)]
pub struct IpBlockRule {
    /// The blocks, in CIDR notation.
    pub cidrs: Vec<String>,
}

/// What a rule does to a request that it lets through.
#[derive(Debug, Default)]
pub struct EgressRuleEffects {
    /// Headers to set, in order.
    pub inject_static_headers: Vec<CredentialHeaderInjection>,
}

/// A header to set to a secret.
#[derive(Debug, Default)]
pub struct CredentialHeaderInjection {
    /// Name of the header.
    pub header: String,
    /// Text before the secret.
    pub prefix: String,
    /// Where the secret comes from.
    pub credential_uri: String,
}

/// Where a request is going.
#[derive(Debug)]
pub struct DestinationContext {
    /// The address.
    pub address: IpAddress,
    /// The port.
    pub port: u16,
    /// The host name, where it is known.
    pub hostname: Option<String>,
}

/// Whether a host-name pattern stands for the names one label below a domain.
pub open spec fn is_wildcard(pattern: Seq<char>) -> bool {
    pattern.len() >= 2 && pattern[0] == '*' && pattern[1] == '.'
}

/// Whether `label` is a single non-empty label.
pub open spec fn is_label(label: Seq<char>) -> bool {
    label.len() > 0 && !label.contains('.')
}

/// Whether a host name fits a pattern: a wildcard fits what one label followed by the pattern without
/// its star spells; any other pattern fits itself.
pub open spec fn hostname_fits(pattern: Seq<char>, hostname: Seq<char>) -> bool {
    if is_wildcard(pattern) {
        exists|label: Seq<char>| #[trigger]
            is_label(label) && hostname == label + pattern.skip(1)
    } else {
        pattern == hostname
    }
}

/// Whether a host name fits one of the patterns of a rule.
pub open spec fn hostnames_fit(rule: HostnameRule, hostname: Option<String>) -> bool {
    match hostname {
        Some(name) => exists|i: int|
            0 <= i < rule.patterns.len() && hostname_fits(#[trigger] rule.patterns[i]@, name@),
        None => false,
    }
}

/// What the CIDR entries from `i` on say of an address: the first that holds it or is malformed
/// decides.
pub open spec fn cidrs_decision(cidrs: Seq<String>, i: int, address: IpAddress) -> Result<
    bool,
    Refusal,
>
    decreases cidrs.len() - i,
{
    if i < 0 || i >= cidrs.len() {
        Ok(false)
    } else {
        match network_decision(parsed_network(cidrs[i]@), address) {
            Ok(false) => cidrs_decision(cidrs, i + 1, address),
            decided => decided,
        }
    }
}

/// What a rule says of a destination.
pub open spec fn rule_decision(rule: EgressRule, destination: DestinationContext) -> Result<
    bool,
    Refusal,
> {
    match (rule.hostnames, rule.ip_blocks) {
        (Some(hostnames), _) => Ok(hostnames_fit(hostnames, destination.hostname)),
        (None, Some(blocks)) => cidrs_decision(blocks.cidrs@, 0, destination.address),
        (None, None) => Ok(rule.all is Some),
    }
}

/// The rule from `i` on that lets the destination through: the first that does not pass it over
/// decides, and without one it is denied.
pub open spec fn rules_decision(
    rules: Seq<EgressRule>,
    i: int,
    destination: DestinationContext,
) -> Result<int, Refusal>
    decreases rules.len() - i,
{
    if i < 0 || i >= rules.len() {
        Err(Refusal::Denied("actor egress policy denied destination"@))
    } else {
        match rule_decision(rules[i], destination) {
            Ok(true) => Ok(i),
            Ok(false) => rules_decision(rules, i + 1, destination),
            Err(refusal) => Err(refusal),
        }
    }
}

/// The rule of a policy that lets the destination through.
pub open spec fn policy_decision(
    policy: EgressPolicy,
    destination: Option<DestinationContext>,
) -> Result<int, Refusal> {
    match destination {
        Some(to) => rules_decision(policy.rules@, 0, to),
        None => Err(Refusal::Denied("missing egress destination context"@)),
    }
}

/// Whether a host name fits a pattern.
#[verifier::loop_isolation(false)]
pub fn hostname_matches(pattern: &str, hostname: &str) -> (matches: bool)
    ensures
        matches == hostname_fits(pattern@, hostname@),
{
    let p: Vec<char> = chars_of(pattern);
    if !(p.len() >= 2 && p[0] == '*' && p[1] == '.') {
        return same_text(pattern, hostname);
    }
    let h: Vec<char> = chars_of(hostname);
    let ghost tail = pattern@.skip(1);
    proof {
        assert forall|label: Seq<char>| #[trigger]
            is_label(label) && hostname@ == label + tail implies label.len() + tail.len()
            == hostname@.len() && label == hostname@.take(hostname@.len() - tail.len()) && tail
            == hostname@.skip(hostname@.len() - tail.len()) by {
            assert((label + tail).take(label.len() as int) == label);
            assert((label + tail).skip(label.len() as int) == tail);
        }
    }
    if h.len() < p.len() {
        return false;
    }
    let cut: usize = h.len() - (p.len() - 1);
    let mut i: usize = 0;
    while i < cut
        invariant
            cut <= h.len(),
            i <= cut,
            h@ == hostname@,
            forall|j: int| 0 <= j < i ==> h[j] != '.',
        decreases cut - i,
    {
        if h[i] == '.' {
            assert(hostname@.take(cut as int)[i as int] == '.');
            return false;
        }
        i += 1;
    }
    while i < h.len()
        invariant
            cut <= i <= h.len(),
            cut == h.len() - (p.len() - 1),
            h@ == hostname@,
            p@ == pattern@,
            tail == pattern@.skip(1),
            forall|j: int| cut <= j < i ==> h[j] == p[1 + j - cut],
        decreases h.len() - i,
    {
        if h[i] != p[1 + (i - cut)] {
            assert(hostname@.skip(cut as int)[i - cut] != tail[i - cut]);
            return false;
        }
        i += 1;
    }
    proof {
        let label = hostname@.take(cut as int);
        assert(is_label(label));
        assert(hostname@ == label + tail);
    }
    true
}

/// Whether a rule matches a destination.
#[verifier::loop_isolation(false)]
pub fn rule_matches(rule: &EgressRule, destination: &DestinationContext) -> (matches: Result<
    bool,
    ProxyError,
>)
    ensures
        seen(matches) == rule_decision(*rule, *destination),
{
    if let Some(hostnames) = &rule.hostnames {
        if let Some(hostname) = &destination.hostname {
            let mut i: usize = 0;
            while i < hostnames.patterns.len()
                invariant
                    i <= hostnames.patterns.len(),
                    forall|j: int|
                        0 <= j < i ==> !hostname_fits(
                            #[trigger] hostnames.patterns[j]@,
                            hostname@,
                        ),
                decreases hostnames.patterns.len() - i,
            {
                if hostname_matches(hostnames.patterns[i].as_str(), hostname.as_str()) {
                    return Ok(true);
                }
                i += 1;
            }
        }
        return Ok(false);
    }
    if let Some(ip_blocks) = &rule.ip_blocks {
        let mut i: usize = 0;
        while i < ip_blocks.cidrs.len()
            invariant
                i <= ip_blocks.cidrs.len(),
                cidrs_decision(ip_blocks.cidrs@, 0, destination.address) == cidrs_decision(
                    ip_blocks.cidrs@,
                    i as int,
                    destination.address,
                ),
            decreases ip_blocks.cidrs.len() - i,
        {
            match decide_cidr(ip_blocks.cidrs[i].as_str(), destination.address) {
                Ok(false) => {},
                Ok(true) => {
                    return Ok(true);
                },
                Err(error) => {
                    return Err(error);
                },
            }
            i += 1;
        }
        return Ok(false);
    }
    Ok(rule.all.is_some())
}

/// The first rule of the policy that matches the destination.
#[verifier::loop_isolation(false)]
pub fn matching_rule<'a>(
    policy: &'a EgressPolicy,
    req: &Request,
) -> (rule: Result<&'a EgressRule, ProxyError>)
    ensures
        match rule {
            Ok(rule) => policy_decision(*policy, req.destination) is Ok && *rule
                == policy.rules[policy_decision(*policy, req.destination)->Ok_0],
            Err(error) => policy_decision(*policy, req.destination) == Err::<int, Refusal>(error@),
        },
{
    let to = match &req.destination {
        Some(to) => to,
        None => {
            return Err(denied("missing egress destination context"));
        },
    };
    let mut i: usize = 0;
    while i < policy.rules.len()
        invariant
            i <= policy.rules.len(),
            rules_decision(policy.rules@, 0, *to) == rules_decision(
                policy.rules@,
                i as int,
                *to,
            ),
        decreases policy.rules.len() - i,
    {
        match rule_matches(&policy.rules[i], to) {
            Ok(false) => {},
            Ok(true) => {
                return Ok(&policy.rules[i]);
            },
            Err(error) => {
                return Err(error);
            },
        }
        i += 1;
    }
    Err(denied("actor egress policy denied destination"))
}

/// The first rule that does not pass the destination over decides, whatever its matcher: `i` is the
/// rule to follow exactly if it matches and no earlier one matches or is malformed.
pub proof fn law_first_matching_rule_wins(
    rules: Seq<EgressRule>,
    destination: DestinationContext,
    i: int,
)
    ensures
        rules_decision(rules, 0, destination) == Ok::<int, Refusal>(i) <==> {
            &&& 0 <= i < rules.len()
            &&& rule_decision(rules[i], destination) == Ok::<bool, Refusal>(true)
            &&& forall|j: int|
                0 <= j < i ==> rule_decision(#[trigger] rules[j], destination) == Ok::<
                    bool,
                    Refusal,
                >(false)
        },
{
    lemma_first_matching_rule(rules, 0, destination, i);
}

proof fn lemma_first_matching_rule(
    rules: Seq<EgressRule>,
    from: int,
    destination: DestinationContext,
    i: int,
)
    requires
        0 <= from,
    ensures
        rules_decision(rules, from, destination) == Ok::<int, Refusal>(i) <==> {
            &&& from <= i < rules.len()
            &&& rule_decision(rules[i], destination) == Ok::<bool, Refusal>(true)
            &&& forall|j: int|
                from <= j < i ==> rule_decision(#[trigger] rules[j], destination) == Ok::<
                    bool,
                    Refusal,
                >(false)
        },
    decreases rules.len() - from,
{
    if from < rules.len() {
        lemma_first_matching_rule(rules, from + 1, destination, i);
    }
}

/// What no rule matches is denied, and every refusal of a policy is a denial.
pub proof fn law_no_matching_rule_denies(rules: Seq<EgressRule>, destination: DestinationContext)
    ensures
        (forall|j: int|
            0 <= j < rules.len() ==> rule_decision(#[trigger] rules[j], destination) == Ok::<
                bool,
                Refusal,
            >(false)) ==> rules_decision(rules, 0, destination) == Err::<int, Refusal>(
            Refusal::Denied("actor egress policy denied destination"@),
        ),
        rules_decision(rules, 0, destination) matches Err(refusal) ==> refusal is Denied,
{
    lemma_no_matching_rule(rules, 0, destination);
}

proof fn lemma_no_matching_rule(
    rules: Seq<EgressRule>,
    from: int,
    destination: DestinationContext,
)
    requires
        0 <= from,
    ensures
        (forall|j: int|
            from <= j < rules.len() ==> rule_decision(#[trigger] rules[j], destination) == Ok::<
                bool,
                Refusal,
            >(false)) ==> rules_decision(rules, from, destination) == Err::<int, Refusal>(
            Refusal::Denied("actor egress policy denied destination"@),
        ),
        rules_decision(rules, from, destination) matches Err(refusal) ==> refusal is Denied,
    decreases rules.len() - from,
{
    if from < rules.len() {
        if let Some(blocks) = rules[from].ip_blocks {
            lemma_cidrs_deny(blocks.cidrs@, 0, destination.address);
        }
        lemma_no_matching_rule(rules, from + 1, destination);
    }
}

proof fn lemma_cidrs_deny(cidrs: Seq<String>, i: int, address: IpAddress)
    ensures
        cidrs_decision(cidrs, i, address) matches Err(refusal) ==> refusal is Denied,
    decreases cidrs.len() - i,
{
    if 0 <= i < cidrs.len() {
        lemma_cidrs_deny(cidrs, i + 1, address);
    }
}

/// Rules added behind one that matches change nothing.
pub proof fn law_later_rules_do_not_matter(
    rules: Seq<EgressRule>,
    more: Seq<EgressRule>,
    destination: DestinationContext,
)
    ensures
        rules_decision(rules, 0, destination) is Ok ==> rules_decision(rules + more, 0, destination)
            == rules_decision(rules, 0, destination),
{
    lemma_later_rules(rules, more, 0, destination);
}

proof fn lemma_later_rules(
    rules: Seq<EgressRule>,
    more: Seq<EgressRule>,
    from: int,
    destination: DestinationContext,
)
    requires
        0 <= from,
    ensures
        rules_decision(rules, from, destination) is Ok ==> rules_decision(
            rules + more,
            from,
            destination,
        ) == rules_decision(rules, from, destination),
    decreases rules.len() - from,
{
    if from < rules.len() {
        assert((rules + more)[from] == rules[from]);
        lemma_later_rules(rules, more, from + 1, destination);
    }
}

/// Address blocks let an address through exactly if one holds it and every earlier one is well formed,
/// and refuse it if one is malformed before any holds it.
pub proof fn law_address_blocks(cidrs: Seq<String>, address: IpAddress)
    ensures
        cidrs_decision(cidrs, 0, address) == Ok::<bool, Refusal>(true) <==> exists|i: int|
            {
                &&& 0 <= i < cidrs.len()
                &&& network_decision(parsed_network((#[trigger] cidrs[i])@), address) == Ok::<
                    bool,
                    Refusal,
                >(true)
                &&& forall|j: int|
                    0 <= j < i ==> parsed_network((#[trigger] cidrs[j])@) is Some
            },
        cidrs_decision(cidrs, 0, address) == Ok::<bool, Refusal>(false) <==> forall|i: int|
            0 <= i < cidrs.len() ==> network_decision(parsed_network((#[trigger] cidrs[i])@), address)
                == Ok::<bool, Refusal>(false),
{
    lemma_address_blocks(cidrs, 0, address);
}

proof fn lemma_address_blocks(cidrs: Seq<String>, from: int, address: IpAddress)
    requires
        0 <= from,
    ensures
        cidrs_decision(cidrs, from, address) == Ok::<bool, Refusal>(true) <==> exists|i: int|
            {
                &&& from <= i < cidrs.len()
                &&& network_decision(parsed_network((#[trigger] cidrs[i])@), address) == Ok::<
                    bool,
                    Refusal,
                >(true)
                &&& forall|j: int|
                    from <= j < i ==> parsed_network((#[trigger] cidrs[j])@) is Some
            },
        cidrs_decision(cidrs, from, address) == Ok::<bool, Refusal>(false) <==> forall|i: int|
            from <= i < cidrs.len() ==> network_decision(
                parsed_network((#[trigger] cidrs[i])@),
                address,
            ) == Ok::<bool, Refusal>(false),
    decreases cidrs.len() - from,
{
    if from < cidrs.len() {
        let _ = cidrs[from];
        lemma_address_blocks(cidrs, from + 1, address);
    }
}

/// A wildcard fits the names exactly one label below its domain.
pub proof fn law_wildcard_is_one_label(domain: Seq<char>, below: Seq<char>)
    ensures
        hostname_fits("*."@ + domain, below + "."@ + domain) <==> is_label(below),
{
    reveal_strlit("*.");
    reveal_strlit(".");
    let pattern = "*."@ + domain;
    let hostname = below + "."@ + domain;
    assert(pattern.skip(1) == "."@ + domain);
    assert(is_wildcard(pattern));
    assert(hostname == below + pattern.skip(1));
    assert forall|label: Seq<char>| #[trigger]
        is_label(label) && hostname == label + pattern.skip(1) implies label == below by {
        assert(hostname.take(label.len() as int) == label);
        assert(hostname.take(below.len() as int) == below);
    }
}

/// A pattern that does not start with `*.` fits itself and nothing else: in particular no name that it
/// only stands at the end of, or at the start.
pub proof fn law_exact_patterns_fit_themselves_only(
    pattern: Seq<char>,
    hostname: Seq<char>,
    more: Seq<char>,
)
    requires
        !(pattern.len() >= 2 && pattern[0] == '*' && pattern[1] == '.'),
    ensures
        hostname_fits(pattern, hostname) <==> hostname == pattern,
        more.len() > 0 ==> !hostname_fits(pattern, more + pattern),
        more.len() > 0 ==> !hostname_fits(pattern, pattern + more),
{
    assert((more + pattern).len() == more.len() + pattern.len());
    assert((pattern + more).len() == more.len() + pattern.len());
}

/// A pattern that starts with `*.` fits a host name exactly if the name ends in all of the pattern but
/// the star, has something before that, and no dot in what it has before that.
pub proof fn law_wildcards_replace_one_label(pattern: Seq<char>, hostname: Seq<char>)
    requires
        pattern.len() >= 2,
        pattern[0] == '*',
        pattern[1] == '.',
    ensures
        hostname_fits(pattern, hostname) <==> {
            let before = hostname.len() - (pattern.len() - 1);
            &&& before > 0
            &&& forall|i: int|
                #![trigger hostname[i]]
                before <= i < hostname.len() ==> hostname[i] == pattern[i - before + 1]
            &&& forall|i: int| 0 <= i < before ==> hostname[i] != '.'
        },
{
    let before = hostname.len() - (pattern.len() - 1);
    let tail = pattern.skip(1);
    if hostname_fits(pattern, hostname) {
        let label = choose|label: Seq<char>| #[trigger]
            is_label(label) && hostname == label + tail;
        assert(label.len() == before);
        assert forall|i: int| 0 <= i < before implies hostname[i] != '.' by {
            assert(label[i] == hostname[i]);
        }
        assert forall|i: int|
            #![trigger hostname[i]]
            before <= i < hostname.len() implies hostname[i] == pattern[i - before + 1] by {
            assert(hostname[i] == tail[i - before]);
        }
    }
    if before > 0 && (forall|i: int|
        #![trigger hostname[i]]
        before <= i < hostname.len() ==> hostname[i] == pattern[i - before + 1]) && (forall|i: int|
        0 <= i < before ==> hostname[i] != '.') {
        let label = hostname.take(before);
        assert(is_label(label));
        assert(hostname == label + tail);
    }
}

/// `hostname_matches` compares all characters: a pattern without `*.` at its start matches itself only;
/// one with it matches exactly the names that end in its rest behind one non-empty label.
pub proof fn law_hostname_matching(pattern: &str, hostname: &str, fits: bool)
    requires
        call_ensures(hostname_matches, (pattern, hostname), fits),
    ensures
        !(pattern@.len() >= 2 && pattern@[0] == '*' && pattern@[1] == '.') ==> (fits <==> hostname@
            == pattern@),
        pattern@.len() >= 2 && pattern@[0] == '*' && pattern@[1] == '.' ==> (fits <==> {
            let before = hostname@.len() - (pattern@.len() - 1);
            &&& before > 0
            &&& forall|i: int|
                #![trigger hostname@[i]]
                before <= i < hostname@.len() ==> hostname@[i] == pattern@[i - before + 1]
            &&& forall|i: int| 0 <= i < before ==> hostname@[i] != '.'
        }),
{
    if pattern@.len() >= 2 && pattern@[0] == '*' && pattern@[1] == '.' {
        law_wildcards_replace_one_label(pattern@, hostname@);
    } else {
        law_exact_patterns_fit_themselves_only(pattern@, hostname@, Seq::empty());
    }
}

/// What the address blocks of a rule come to: the address is let through exactly if some block holds it
/// and no earlier text is malformed, and denied exactly if some text is malformed and no earlier block
/// holds it.
pub proof fn law_malformed_blocks_deny(cidrs: Seq<String>, address: IpAddress)
    ensures
        cidrs_decision(cidrs, 0, address) == Ok::<bool, Refusal>(true) <==> exists|i: int|
            {
                &&& 0 <= i < cidrs.len()
                &&& parsed_network((#[trigger] cidrs[i])@) is Some
                &&& parsed_network(cidrs[i]@)->Some_0.has(address)
                &&& forall|j: int| 0 <= j < i ==> parsed_network((#[trigger] cidrs[j])@) is Some
            },
        cidrs_decision(cidrs, 0, address) == Err::<bool, Refusal>(
            Refusal::Denied("invalid actor egress CIDR: "@ + "invalid IP address syntax"@),
        ) <==> exists|i: int|
            {
                &&& 0 <= i < cidrs.len()
                &&& parsed_network((#[trigger] cidrs[i])@) is None
                &&& forall|j: int|
                    0 <= j < i ==> parsed_network((#[trigger] cidrs[j])@) is Some
                        && !parsed_network(cidrs[j]@)->Some_0.has(address)
            },
        cidrs_decision(cidrs, 0, address) matches Err(refusal) ==> refusal == Refusal::Denied(
            "invalid actor egress CIDR: "@ + "invalid IP address syntax"@,
        ),
{
    lemma_malformed_blocks(cidrs, 0, address);
}

proof fn lemma_malformed_blocks(cidrs: Seq<String>, from: int, address: IpAddress)
    requires
        0 <= from,
    ensures
        cidrs_decision(cidrs, from, address) == Ok::<bool, Refusal>(true) <==> exists|i: int|
            {
                &&& from <= i < cidrs.len()
                &&& parsed_network((#[trigger] cidrs[i])@) is Some
                &&& parsed_network(cidrs[i]@)->Some_0.has(address)
                &&& forall|j: int| from <= j < i ==> parsed_network((#[trigger] cidrs[j])@) is Some
            },
        cidrs_decision(cidrs, from, address) == Err::<bool, Refusal>(
            Refusal::Denied("invalid actor egress CIDR: "@ + "invalid IP address syntax"@),
        ) <==> exists|i: int|
            {
                &&& from <= i < cidrs.len()
                &&& parsed_network((#[trigger] cidrs[i])@) is None
                &&& forall|j: int|
                    from <= j < i ==> parsed_network((#[trigger] cidrs[j])@) is Some
                        && !parsed_network(cidrs[j]@)->Some_0.has(address)
            },
        cidrs_decision(cidrs, from, address) matches Err(refusal) ==> refusal == Refusal::Denied(
            "invalid actor egress CIDR: "@ + "invalid IP address syntax"@,
        ),
    decreases cidrs.len() - from,
{
    if from < cidrs.len() {
        let _ = cidrs[from];
        lemma_malformed_blocks(cidrs, from + 1, address);
    }
}

/// A rule goes by its first matcher alone: by host names if it has them, and then by no address and not
/// at all where the destination has no name; else by address blocks if it has them; else it lets
/// everything through exactly if it says so.
pub proof fn law_first_matcher_decides(
    rule: EgressRule,
    destination: DestinationContext,
    result: Result<bool, ProxyError>,
)
    requires
        call_ensures(rule_matches, (&rule, &destination), result),
    ensures
        rule.hostnames matches Some(hostnames) ==> result is Ok && (result->Ok_0 <==> (
        destination.hostname matches Some(name) && exists|i: int|
            0 <= i < hostnames.patterns.len() && hostname_fits(
                #[trigger] hostnames.patterns[i]@,
                name@,
            ))),
        rule.hostnames is None && rule.ip_blocks is Some ==> match result {
            Ok(decided) => cidrs_decision(
                rule.ip_blocks->Some_0.cidrs@,
                0,
                destination.address,
            ) == Ok::<bool, Refusal>(decided),
            Err(ProxyError::SubstrateEgressDenied(message)) => cidrs_decision(
                rule.ip_blocks->Some_0.cidrs@,
                0,
                destination.address,
            ) == Err::<bool, Refusal>(Refusal::Denied(message@)),
            Err(_) => false,
        },
        rule.hostnames is None && rule.ip_blocks is None ==> result is Ok && (result->Ok_0
            <==> rule.all is Some),
{
    if let Some(blocks) = rule.ip_blocks {
        lemma_cidrs_deny(blocks.cidrs@, 0, destination.address);
    }
}

/// The same of what a rule says.
pub proof fn law_rules_go_by_their_first_matcher(rule: EgressRule, destination: DestinationContext)
    ensures
        rule.hostnames matches Some(hostnames) ==> rule_decision(rule, destination) == Ok::<
            bool,
            Refusal,
        >(
            destination.hostname matches Some(name) && exists|i: int|
                0 <= i < hostnames.patterns.len() && hostname_fits(
                    #[trigger] hostnames.patterns[i]@,
                    name@,
                ),
        ),
        rule.hostnames is None ==> (rule.ip_blocks matches Some(blocks) ==> rule_decision(
            rule,
            destination,
        ) == cidrs_decision(blocks.cidrs@, 0, destination.address)),
        rule.hostnames is None && rule.ip_blocks is None ==> rule_decision(rule, destination)
            == Ok::<bool, Refusal>(rule.all is Some),
{
}

/// `matching_rule` hands out the first rule that matches, if no earlier one is malformed. Without one it
/// denies: with the refusal of the first malformed rule, if all before that pass the destination over,
/// and as not allowed if all rules do.
pub proof fn law_matching_rule_is_the_first(
    policy: EgressPolicy,
    req: Request,
    rule: Result<&EgressRule, ProxyError>,
)
    requires
        call_ensures(matching_rule, (&policy, &req), rule),
    ensures
        req.destination is None ==> (rule matches Err(ProxyError::SubstrateEgressDenied(message))
            && message@ == "missing egress destination context"@),
        req.destination matches Some(to) ==> match rule {
            Ok(found) => exists|i: int|
                {
                    &&& 0 <= i < policy.rules.len()
                    &&& *found == #[trigger] policy.rules[i]
                    &&& rule_decision(policy.rules[i], to) == Ok::<bool, Refusal>(true)
                    &&& forall|j: int|
                        0 <= j < i ==> rule_decision(#[trigger] policy.rules[j], to) == Ok::<
                            bool,
                            Refusal,
                        >(false)
                },
            Err(ProxyError::SubstrateEgressDenied(message)) => {
                ||| message@ == "actor egress policy denied destination"@ && forall|j: int|
                    0 <= j < policy.rules.len() ==> rule_decision(#[trigger] policy.rules[j], to)
                        == Ok::<bool, Refusal>(false)
                ||| exists|i: int|
                    {
                        &&& 0 <= i < policy.rules.len()
                        &&& rule_decision(#[trigger] policy.rules[i], to) == Err::<bool, Refusal>(
                            Refusal::Denied(message@),
                        )
                        &&& forall|j: int|
                            0 <= j < i ==> rule_decision(#[trigger] policy.rules[j], to) == Ok::<
                                bool,
                                Refusal,
                            >(false)
                    }
            },
            Err(_) => false,
        },
{
    if let Some(to) = req.destination {
        law_no_matching_rule_denies(policy.rules@, to);
        let i = lemma_decided_by(policy.rules@, 0, to);
        assert forall|j: int| 0 <= j < i implies rule_decision(#[trigger] policy.rules[j], to)
            == Ok::<bool, Refusal>(false) by {}
        if i < policy.rules.len() {
            let decisive = policy.rules[i];
            if let Ok(found) = rule {
                let decided = rule_decision(decisive, to);
                assert(decided is Ok);
                assert(decided->Ok_0);
                assert(decided == Ok::<bool, Refusal>(true));
                assert(*found == policy.rules[i]);
            } else {
                assert(rule_decision(decisive, to) == Err::<bool, Refusal>(rule->Err_0@));
            }
        }
    }
}

/// The rule that decides: the first that does not pass the destination over, or the end.
proof fn lemma_decided_by(
    rules: Seq<EgressRule>,
    from: int,
    destination: DestinationContext,
) -> (i: int)
    requires
        0 <= from <= rules.len(),
    ensures
        from <= i <= rules.len(),
        forall|j: int|
            from <= j < i ==> rule_decision(#[trigger] rules[j], destination) == Ok::<
                bool,
                Refusal,
            >(false),
        i == rules.len() ==> rules_decision(rules, from, destination) == Err::<int, Refusal>(
            Refusal::Denied("actor egress policy denied destination"@),
        ),
        i < rules.len() ==> rule_decision(rules[i], destination) != Ok::<bool, Refusal>(false),
        i < rules.len() && rule_decision(rules[i], destination) is Err ==> rules_decision(
            rules,
            from,
            destination,
        ) == Err::<int, Refusal>(rule_decision(rules[i], destination)->Err_0),
        i < rules.len() && rule_decision(rules[i], destination) is Ok ==> rules_decision(
            rules,
            from,
            destination,
        ) == Ok::<int, Refusal>(i),
    decreases rules.len() - from,
{
    if from < rules.len() && rule_decision(rules[from], destination) == Ok::<bool, Refusal>(false) {
        lemma_decided_by(rules, from + 1, destination)
    } else {
        from
    }
}

} // verus!
