//! Credentials: which provider a credential URI names, what counts as a usable secret, and the header
//! that a secret becomes.

use vstd::prelude::*;

use crate::error::{
    answer_failed_call, denied_with, failed_call, unavailable_with, ProxyError, Refusal, Status,
};
use crate::headers::{
    invalid_name_text, invalid_value_text, is_header_name, is_header_value, is_value_byte, lowercase,
    parse_header_name, parse_header_value,
};
use crate::policy::CredentialHeaderInjection;
use crate::text::{
    first_at, has_char, lemma_first_at, lemma_split_joined, lemma_split_parts, same_text,
    strip_prefix, take_until, until, without_prefix,
};

verus! {

/// Whether `name` can be the authority of a credential URI.
pub open spec fn is_authority(name: Seq<char>) -> bool {
    &&& name.len() > 0
    &&& !name.contains('?')
    &&& !name.contains('#')
    &&& !name.contains('@')
    &&& !name.contains(':')
}

/// The provider that a credential URI names: its authority, taken as it stands.
pub open spec fn provider_of(uri: Seq<char>) -> Option<Seq<char>> {
    match without_prefix(uri, "ate-secret://"@) {
        Some(rest) => if is_authority(until(rest, '/')) {
            Some(until(rest, '/'))
        } else {
            None
        },
        None => None,
    }
}

/// The provider that a credential URI names.
pub fn provider_name(uri: &str) -> (name: Option<&str>)
    ensures
        name is Some <==> provider_of(uri@) is Some,
        name matches Some(n) ==> provider_of(uri@) == Some(n@),
{
    match strip_prefix(uri, "ate-secret://") {
        Some(rest) => {
            let authority = take_until(rest, '/');
            if !authority.is_empty() && !has_char(authority, '?') && !has_char(authority, '#')
                && !has_char(authority, '@') && !has_char(authority, ':') {
                Some(authority)
            } else {
                None
            }
        },
        None => None,
    }
}

/// The SPIFFE ID under which credential providers know an actor.
pub open spec fn actor_spiffe_id(atespace: Seq<char>, actor_name: Seq<char>) -> Seq<char> {
    "spiffe://substrate-actor.local/actor/"@ + atespace + "/"@ + actor_name
}

/// The SPIFFE ID under which credential providers know an actor.
pub fn actor_spiffe_uri(atespace: &str, actor_name: &str) -> (uri: String)
    ensures
        uri@ == actor_spiffe_id(atespace@, actor_name@),
{
    let mut uri: String = "spiffe://substrate-actor.local/actor/".to_owned();
    uri.append(atespace);
    uri.append("/");
    uri.append(actor_name);
    uri
}

/// `bytes` without `last` at their end.
pub open spec fn without_last(bytes: Seq<u8>, last: u8) -> Seq<u8> {
    if bytes.len() > 0 && bytes.last() == last {
        bytes.drop_last()
    } else {
        bytes
    }
}

/// A secret without the line end that files tend to have: a line feed, then a carriage return.
pub open spec fn without_line_end(secret: Seq<u8>) -> Seq<u8> {
    without_last(without_last(secret, 10), 13)
}

/// Whether `byte` is an ASCII control character.
pub open spec fn is_control(byte: u8) -> bool {
    byte < 32 || byte == 127
}

/// Whether a secret can be put into a header.
pub open spec fn is_usable(secret: Seq<u8>) -> bool {
    secret.len() > 0 && forall|i: int| 0 <= i < secret.len() ==> !is_control(#[trigger] secret[i])
}

/// The secret in what a provider returned.
pub open spec fn secret_in(returned: Seq<u8>) -> Result<Seq<u8>, Refusal> {
    if is_usable(without_line_end(returned)) {
        Ok(without_line_end(returned))
    } else {
        Err(Refusal::Unavailable("credential provider returned an unusable secret"@))
    }
}

/// `bytes` without `last` at their end.
fn strip_last(bytes: Vec<u8>, last: u8) -> (rest: Vec<u8>)
    ensures
        rest@ == without_last(bytes@, last),
{
    let mut rest: Vec<u8> = bytes;
    if rest.len() > 0 && rest[rest.len() - 1] == last {
        rest.pop();
    }
    rest
}

/// The secret in what a provider returned: without its line end, and refused if nothing is left or a
/// control character is among it.
pub fn credential_secret(secret: Vec<u8>) -> (usable: Result<Vec<u8>, ProxyError>)
    ensures
        match usable {
            Ok(s) => secret_in(secret@) == Ok::<Seq<u8>, Refusal>(s@),
            Err(error) => secret_in(secret@) == Err::<Seq<u8>, Refusal>(error@),
        },
{
    let stripped: Vec<u8> = strip_last(strip_last(secret, 10), 13);
    let mut usable: bool = stripped.len() > 0;
    let mut i: usize = 0;
    while i < stripped.len()
        invariant
            i <= stripped.len(),
            usable == (stripped.len() > 0 && forall|j: int|
                0 <= j < i ==> !is_control(#[trigger] stripped[j])),
        decreases stripped.len() - i,
    {
        if stripped[i] < 32 || stripped[i] == 127 {
            assert(is_control(stripped[i as int]));
            usable = false;
        }
        i += 1;
    }
    if usable {
        Ok(stripped)
    } else {
        Err(
            ProxyError::SubstrateEgressUnavailable(
                "credential provider returned an unusable secret".to_owned(),
            ),
        )
    }
}

/// Whether a header routes or frames the message, so that no credential may replace it.
pub open spec fn is_protected(name: Seq<char>) -> bool {
    ||| name == "host"@
    ||| name == "content-length"@
    ||| name == "connection"@
    ||| name == "keep-alive"@
    ||| name == "proxy-authenticate"@
    ||| name == "proxy-authorization"@
    ||| name == "te"@
    ||| name == "trailer"@
    ||| name == "transfer-encoding"@
    ||| name == "upgrade"@
}

/// Whether a header, by its lower-case name, routes or frames the message.
pub fn protected_credential_header(name: &str) -> (protected: bool)
    ensures
        protected == is_protected(name@),
{
    same_text(name, "host") || same_text(name, "content-length") || same_text(name, "connection")
        || same_text(name, "keep-alive") || same_text(name, "proxy-authenticate") || same_text(
        name,
        "proxy-authorization",
    ) || same_text(name, "te") || same_text(name, "trailer") || same_text(name, "transfer-encoding")
        || same_text(name, "upgrade")
}

/// A header that carries a credential.
pub struct CredentialHeader {
    /// Its lower-case name.
    pub name: String,
    /// Its value.
    pub value: Vec<u8>,
    /// Whether the value is to be kept out of logs and compression tables.
    pub sensitive: bool,
}

impl View for CredentialHeader {
    type V = (Seq<char>, Seq<u8>, bool);

    open spec fn view(&self) -> (Seq<char>, Seq<u8>, bool) {
        (self.name@, self.value@, self.sensitive)
    }
}

/// The header that an injection makes of a secret.
pub open spec fn header_of(injection: CredentialHeaderInjection, secret: Seq<u8>) -> Result<
    (Seq<char>, Seq<u8>, bool),
    Refusal,
> {
    let name = lowercase(injection.header@);
    if !is_header_name(injection.header@) {
        Err(Refusal::Denied("invalid credential header: "@ + "invalid HTTP header name"@))
    } else if is_protected(name) {
        Err(Refusal::Denied("credential effects cannot modify protected header "@ + name))
    } else {
        match secret_in(secret) {
            Ok(usable) => {
                let value = vstd::utf8::encode_utf8(injection.prefix@) + usable;
                if is_header_value(value) {
                    Ok((name, value, true))
                } else {
                    Err(
                        Refusal::Unavailable(
                            "credential header value is invalid: "@
                                + "failed to parse header value"@,
                        ),
                    )
                }
            },
            Err(refusal) => Err(refusal),
        }
    }
}

/// The header that an injection makes of a secret.
pub fn credential_header(
    injection: &CredentialHeaderInjection,
    secret: Vec<u8>,
) -> (header: Result<CredentialHeader, ProxyError>)
    ensures
        match header {
            Ok(h) => header_of(*injection, secret@) == Ok::<(Seq<char>, Seq<u8>, bool), Refusal>(
                h@,
            ),
            Err(error) => header_of(*injection, secret@) == Err::<
                (Seq<char>, Seq<u8>, bool),
                Refusal,
            >(error@),
        },
{
    let name: String = match parse_header_name(injection.header.as_str()) {
        Ok(name) => name,
        Err(error) => {
            return Err(
                denied_with("invalid credential header: ", invalid_name_text(&error).as_str()),
            );
        },
    };
    if protected_credential_header(name.as_str()) {
        return Err(
            denied_with("credential effects cannot modify protected header ", name.as_str()),
        );
    }
    let mut secret: Vec<u8> = credential_secret(secret)?;
    let mut value: Vec<u8> = injection.prefix.as_str().as_bytes_vec();
    value.append(&mut secret);
    match parse_header_value(value.as_slice()) {
        Ok(value) => Ok(CredentialHeader { name, value, sensitive: true }),
        Err(error) => Err(
            unavailable_with(
                "credential header value is invalid: ",
                invalid_value_text(&error).as_str(),
            ),
        ),
    }
}

/// How the failure of a credential provider is answered.
pub open spec fn provider_failure(uri: Seq<char>, status: Status) -> Refusal {
    let provider = match provider_of(uri) {
        Some(name) => name,
        None => "unknown"@,
    };
    failed_call(
        status.is_outage(),
        status.text(),
        "credential provider "@ + provider + " unavailable: "@,
        "credential provider "@ + provider + " denied: "@,
    )
}

/// How the failure of a credential provider is answered.
pub fn credential_provider_error(uri: &str, status: &Status) -> (error: ProxyError)
    ensures
        error@ == provider_failure(uri@, *status),
{
    let provider = match provider_name(uri) {
        Some(name) => name,
        None => "unknown",
    };
    let subject: String = "credential provider ".to_owned().concat(provider);
    let if_outage: String = subject.clone().concat(" unavailable: ");
    let if_refused: String = subject.concat(" denied: ");
    answer_failed_call(
        status.outage(),
        status.to_text().as_str(),
        if_outage.as_str(),
        if_refused.as_str(),
    )
}

/// The provider is the exact authority, whatever the path behind it.
pub proof fn law_provider_is_the_exact_authority(authority: Seq<char>, path: Seq<char>)
    requires
        is_authority(authority),
        !authority.contains('/'),
    ensures
        provider_of("ate-secret://"@ + authority + "/"@ + path) == Some(authority),
        provider_of("ate-secret://"@ + authority) == Some(authority),
{
    reveal_strlit("/");
    let scheme = "ate-secret://"@;
    let with_path = scheme + authority + "/"@ + path;
    assert(with_path.skip(scheme.len() as int) == authority + seq!['/'] + path);
    assert(scheme.is_prefix_of(with_path));
    lemma_split_joined(authority, '/', path);
    let bare = scheme + authority;
    assert(bare.skip(scheme.len() as int) == authority);
    assert(scheme.is_prefix_of(bare));
    lemma_split_parts(authority, '/');
    assert(until(authority, '/') == authority) by {
        lemma_first_at(authority, '/', 0);
        assert(first_at(authority, '/', 0) == authority.len());
    }
}

/// A URI that names a provider is `ate-secret://`, the name, and nothing or a path; and the name holds
/// no port, user, query, fragment or slash.
pub proof fn law_named_provider_stands_in_the_uri(uri: Seq<char>)
    ensures
        provider_of(uri) matches Some(name) ==> {
            let rest = uri.skip(("ate-secret://"@ + name).len() as int);
            &&& is_authority(name)
            &&& !name.contains('/')
            &&& uri == "ate-secret://"@ + name + rest
            &&& rest.len() == 0 || rest[0] == '/'
        },
{
    if let Some(name) = provider_of(uri) {
        let scheme = "ate-secret://"@;
        let rest = uri.skip(scheme.len() as int);
        lemma_split_parts(rest, '/');
        lemma_first_at(rest, '/', 0);
        assert(uri == scheme + name + uri.skip((scheme + name).len() as int));
    }
}

/// Actors of differently named atespaces, or of one atespace under different names, have different
/// SPIFFE IDs, as long as an atespace's name has no slash.
pub proof fn law_actor_ids_are_apart(
    atespace: Seq<char>,
    name: Seq<char>,
    other_atespace: Seq<char>,
    other_name: Seq<char>,
)
    requires
        !atespace.contains('/'),
        !other_atespace.contains('/'),
    ensures
        actor_spiffe_id(atespace, name) == actor_spiffe_id(other_atespace, other_name) ==> atespace
            == other_atespace && name == other_name,
{
    reveal_strlit("/");
    let scheme = "spiffe://substrate-actor.local/actor/"@;
    lemma_split_joined(atespace, '/', name);
    lemma_split_joined(other_atespace, '/', other_name);
    assert(actor_spiffe_id(atespace, name).skip(scheme.len() as int) == atespace + seq!['/']
        + name);
    assert(actor_spiffe_id(other_atespace, other_name).skip(scheme.len() as int) == other_atespace
        + seq!['/'] + other_name);
}

/// A secret that was found usable stays as it is when it is looked at again.
pub proof fn law_usable_secret_is_stable(returned: Seq<u8>)
    ensures
        secret_in(returned) matches Ok(secret) ==> secret_in(secret) == Ok::<Seq<u8>, Refusal>(
            secret,
        ),
{
}

/// A secret that is empty but for its line end, or holds a control character before it, is refused
/// as unavailable, and so is every header that would carry it.
pub proof fn law_malformed_secret_fails_closed(
    injection: CredentialHeaderInjection,
    returned: Seq<u8>,
)
    requires
        !is_usable(without_line_end(returned)),
    ensures
        secret_in(returned) matches Err(refusal) && refusal is Unavailable,
        header_of(injection, returned) is Err,
{
}

/// A credential header is never one that routes or frames the message; its value is the prefix and the
/// secret, breaks no line, and is marked sensitive.
pub proof fn law_credential_header_is_safe(injection: CredentialHeaderInjection, returned: Seq<u8>)
    ensures
        header_of(injection, returned) matches Ok((name, value, sensitive)) ==> {
            &&& name == lowercase(injection.header@)
            &&& !is_protected(name)
            &&& value == vstd::utf8::encode_utf8(injection.prefix@) + without_line_end(returned)
            &&& !value.contains(10) && !value.contains(13)
            &&& sensitive
        },
{
}

/// A provider that is out of reach is answered with 503, one that refuses with 403.
pub proof fn law_provider_failures_keep_availability(uri: Seq<char>, status: Status)
    ensures
        provider_failure(uri, status).http_status() == (if status.is_outage() {
            503u16
        } else {
            403u16
        }),
{
}

/// A URI names a provider exactly if it is `ate-secret://` and the name, alone or with a slash and
/// anything behind it; and the name is not empty and holds no slash, query, fragment, user or port.
pub proof fn law_provider_names(uri: Seq<char>, name: Seq<char>)
    ensures
        provider_of(uri) == Some(name) <==> {
            &&& name.len() > 0
            &&& forall|i: int|
                #![trigger name[i]]
                0 <= i < name.len() ==> name[i] != '/' && name[i] != '?' && name[i] != '#'
                    && name[i] != '@' && name[i] != ':'
            &&& uri == "ate-secret://"@ + name || (exists|path: Seq<char>|
                uri == #[trigger] ("ate-secret://"@ + name + "/"@ + path))
        },
{
    reveal_strlit("/");
    let scheme = "ate-secret://"@;
    if provider_of(uri) == Some(name) {
        law_named_provider_stands_in_the_uri(uri);
        let rest = uri.skip((scheme + name).len() as int);
        if rest.len() > 0 {
            assert(uri == scheme + name + "/"@ + rest.skip(1));
        } else {
            assert(uri == scheme + name);
        }
        assert forall|i: int|
            #![trigger name[i]]
            0 <= i < name.len() implies name[i] != '/' && name[i] != '?' && name[i] != '#' && name[i]
            != '@' && name[i] != ':' by {
            assert(name.contains(name[i]));
        }
    }
    if name.len() > 0 && (forall|i: int|
        #![trigger name[i]]
        0 <= i < name.len() ==> name[i] != '/' && name[i] != '?' && name[i] != '#' && name[i] != '@'
            && name[i] != ':') {
        if uri == scheme + name {
            law_provider_is_the_exact_authority(name, Seq::empty());
        }
        if exists|path: Seq<char>| uri == #[trigger] (scheme + name + "/"@ + path) {
            let path = choose|path: Seq<char>| uri == #[trigger] (scheme + name + "/"@ + path);
            law_provider_is_the_exact_authority(name, path);
        }
    }
}

/// `provider_name` hands out the name that stands in the URI, and nothing where none does.
pub proof fn law_provider_name_stands_in_the_uri(uri: &str, name: Option<&str>)
    requires
        call_ensures(provider_name, (uri,), name),
    ensures
        name matches Some(n) ==> {
            &&& n@.len() > 0
            &&& forall|i: int|
                #![trigger n@[i]]
                0 <= i < n@.len() ==> n@[i] != '/' && n@[i] != '?' && n@[i] != '#' && n@[i] != '@'
                    && n@[i] != ':'
            &&& uri@ == "ate-secret://"@ + n@ || (exists|path: Seq<char>|
                uri@ == #[trigger] ("ate-secret://"@ + n@ + "/"@ + path))
        },
        name is None ==> forall|n: Seq<char>| #[trigger]
            n.len() > 0 && (forall|i: int|
                #![trigger n[i]]
                0 <= i < n.len() ==> n[i] != '/' && n[i] != '?' && n[i] != '#' && n[i] != '@' && n[i]
                    != ':') ==> uri@ != "ate-secret://"@ + n && forall|path: Seq<char>|
                uri@ != #[trigger] ("ate-secret://"@ + n + "/"@ + path),
{
    if let Some(n) = name {
        law_provider_names(uri@, n@);
    } else {
        assert forall|n: Seq<char>| #[trigger]
            n.len() > 0 && (forall|i: int|
                #![trigger n[i]]
                0 <= i < n.len() ==> n[i] != '/' && n[i] != '?' && n[i] != '#' && n[i] != '@' && n[i]
                    != ':') implies uri@ != "ate-secret://"@ + n && forall|path: Seq<char>|
            uri@ != #[trigger] ("ate-secret://"@ + n + "/"@ + path) by {
            law_provider_names(uri@, n);
        }
    }
}

/// The SPIFFE ID of an actor holds atespace and name in full, behind the fixed trust domain.
pub proof fn law_actor_ids_hold_both_names(atespace: &str, actor_name: &str, uri: String)
    requires
        call_ensures(actor_spiffe_uri, (atespace, actor_name), uri),
    ensures
        uri@ == "spiffe://substrate-actor.local/actor/"@ + atespace@ + "/"@ + actor_name@,
        uri@ == actor_spiffe_id(atespace@, actor_name@),
{
}

/// A secret that is not empty and holds no control character comes back byte for byte, whatever its
/// length, alone or with one line end behind it.
pub proof fn law_usable_secrets_come_back_whole(secret: Seq<u8>)
    requires
        secret.len() > 0,
        forall|i: int|
            #![trigger secret[i]]
            0 <= i < secret.len() ==> 32 <= secret[i] && secret[i] != 127,
    ensures
        secret_in(secret) == Ok::<Seq<u8>, Refusal>(secret),
        secret_in(secret + seq![10u8]) == Ok::<Seq<u8>, Refusal>(secret),
        secret_in(secret + seq![13u8]) == Ok::<Seq<u8>, Refusal>(secret),
        secret_in(secret + seq![13u8, 10u8]) == Ok::<Seq<u8>, Refusal>(secret),
{
    let lf = secret + seq![10u8];
    let cr = secret + seq![13u8];
    let crlf = secret + seq![13u8, 10u8];
    assert(secret.last() == secret[secret.len() - 1]);
    assert(lf.last() == 10 && lf.drop_last() == secret);
    assert(cr.last() == 13 && cr.drop_last() == secret);
    assert(crlf.last() == 10 && crlf.drop_last() == cr);
    assert(without_line_end(secret) == secret);
    assert(without_line_end(lf) == secret);
    assert(without_line_end(cr) == secret);
    assert(without_line_end(crlf) == secret);
}

/// A secret is found in what a provider returned exactly if that is the secret, alone or with one line
/// end behind it, and the secret is not empty and holds no control character. Else the provider counts
/// as unavailable.
pub proof fn law_secrets_in_replies(returned: Seq<u8>, secret: Seq<u8>)
    ensures
        secret_in(returned) == Ok::<Seq<u8>, Refusal>(secret) <==> {
            &&& secret.len() > 0
            &&& forall|i: int|
                #![trigger secret[i]]
                0 <= i < secret.len() ==> 32 <= secret[i] && secret[i] != 127
            &&& returned == secret || returned == secret + seq![10u8] || returned == secret
                + seq![13u8] || returned == secret + seq![13u8, 10u8]
        },
        secret_in(returned) matches Err(refusal) ==> refusal == Refusal::Unavailable(
            "credential provider returned an unusable secret"@,
        ),
{
    if secret_in(returned) == Ok::<Seq<u8>, Refusal>(secret) {
        let once = without_last(returned, 10);
        assert(returned == once || returned == once + seq![10u8]);
        assert(once == secret || once == secret + seq![13u8]);
        assert(secret + seq![13u8] + seq![10u8] == secret + seq![13u8, 10u8]);
        assert forall|i: int|
            #![trigger secret[i]]
            0 <= i < secret.len() implies 32 <= secret[i] && secret[i] != 127 by {
            assert(!is_control(secret[i]));
        }
    }
    if secret.len() > 0 && (forall|i: int|
        #![trigger secret[i]]
        0 <= i < secret.len() ==> 32 <= secret[i] && secret[i] != 127) {
        law_usable_secrets_come_back_whole(secret);
    }
}

/// The same of `credential_secret`, which hands out the whole secret or says why there is none.
pub proof fn law_credential_secret_is_whole(
    returned: Vec<u8>,
    secret: Seq<u8>,
    result: Result<Vec<u8>, ProxyError>,
)
    requires
        call_ensures(credential_secret, (returned,), result),
    ensures
        (result matches Ok(s) && s@ == secret) <==> {
            &&& secret.len() > 0
            &&& forall|i: int|
                #![trigger secret[i]]
                0 <= i < secret.len() ==> 32 <= secret[i] && secret[i] != 127
            &&& returned@ == secret || returned@ == secret + seq![10u8] || returned@ == secret
                + seq![13u8] || returned@ == secret + seq![13u8, 10u8]
        },
        result is Err ==> (result matches Err(ProxyError::SubstrateEgressUnavailable(message))
            && message@ == "credential provider returned an unusable secret"@),
{
    law_secrets_in_replies(returned@, secret);
}

/// The headers that no credential may replace are ten, and no others.
pub proof fn law_ten_headers_are_protected(name: Seq<char>)
    ensures
        is_protected(name) <==> seq![
            "host"@,
            "content-length"@,
            "connection"@,
            "keep-alive"@,
            "proxy-authenticate"@,
            "proxy-authorization"@,
            "te"@,
            "trailer"@,
            "transfer-encoding"@,
            "upgrade"@,
        ].contains(name),
{
    let names = seq![
        "host"@,
        "content-length"@,
        "connection"@,
        "keep-alive"@,
        "proxy-authenticate"@,
        "proxy-authorization"@,
        "te"@,
        "trailer"@,
        "transfer-encoding"@,
        "upgrade"@,
    ];
    assert(names[0] == "host"@ && names[1] == "content-length"@ && names[2] == "connection"@);
    assert(names[3] == "keep-alive"@ && names[4] == "proxy-authenticate"@);
    assert(names[5] == "proxy-authorization"@ && names[6] == "te"@ && names[7] == "trailer"@);
    assert(names[8] == "transfer-encoding"@ && names[9] == "upgrade"@);
}

/// `protected_credential_header` tells those ten from all other names.
pub proof fn law_protection_is_told_by_name(name: &str, protected: bool)
    requires
        call_ensures(protected_credential_header, (name,), protected),
    ensures
        protected <==> seq![
            "host"@,
            "content-length"@,
            "connection"@,
            "keep-alive"@,
            "proxy-authenticate"@,
            "proxy-authorization"@,
            "te"@,
            "trailer"@,
            "transfer-encoding"@,
            "upgrade"@,
        ].contains(name@),
{
    law_ten_headers_are_protected(name@);
}

/// A credential header is made exactly if its name is a header name and not protected, what the provider
/// returned is a usable secret, and prefix and secret together make a header value. It has the name in
/// lower case; its value is the whole prefix and then the whole secret, and is sensitive.
pub proof fn law_credential_headers(
    injection: CredentialHeaderInjection,
    returned: Seq<u8>,
    secret: Seq<u8>,
)
    requires
        secret.len() > 0,
        forall|i: int|
            #![trigger secret[i]]
            0 <= i < secret.len() ==> 32 <= secret[i] && secret[i] != 127,
        returned == secret || returned == secret + seq![10u8] || returned == secret + seq![13u8]
            || returned == secret + seq![13u8, 10u8],
    ensures
        ({
            let name = lowercase(injection.header@);
            let value = vstd::utf8::encode_utf8(injection.prefix@) + secret;
            header_of(injection, returned) == if !is_header_name(injection.header@) {
                Err::<(Seq<char>, Seq<u8>, bool), Refusal>(
                    Refusal::Denied("invalid credential header: "@ + "invalid HTTP header name"@),
                )
            } else if is_protected(name) {
                Err(Refusal::Denied("credential effects cannot modify protected header "@ + name))
            } else if is_header_value(vstd::utf8::encode_utf8(injection.prefix@)) {
                Ok((name, value, true))
            } else {
                Err(
                    Refusal::Unavailable(
                        "credential header value is invalid: "@ + "failed to parse header value"@,
                    ),
                )
            }
        }),
{
    law_secrets_in_replies(returned, secret);
    let prefix = vstd::utf8::encode_utf8(injection.prefix@);
    let value = prefix + secret;
    assert(is_header_value(value) <==> is_header_value(prefix)) by {
        if is_header_value(value) {
            assert forall|i: int| 0 <= i < prefix.len() implies is_value_byte(
                #[trigger] prefix[i],
            ) by {
                assert(value[i] == prefix[i]);
            }
        }
        if is_header_value(prefix) {
            assert forall|i: int| 0 <= i < value.len() implies is_value_byte(
                #[trigger] value[i],
            ) by {
                if i < prefix.len() {
                    assert(value[i] == prefix[i]);
                } else {
                    assert(value[i] == secret[i - prefix.len()]);
                }
            }
        }
    }
}

/// Without a usable secret no header is made: a bad name is denied first, and else the provider counts
/// as unavailable.
pub proof fn law_no_secret_no_header(injection: CredentialHeaderInjection, returned: Seq<u8>)
    requires
        secret_in(returned) is Err,
    ensures
        header_of(injection, returned) == if !is_header_name(injection.header@) {
            Err::<(Seq<char>, Seq<u8>, bool), Refusal>(
                Refusal::Denied("invalid credential header: "@ + "invalid HTTP header name"@),
            )
        } else if is_protected(lowercase(injection.header@)) {
            Err(
                Refusal::Denied(
                    "credential effects cannot modify protected header "@ + lowercase(
                        injection.header@,
                    ),
                ),
            )
        } else {
            Err(Refusal::Unavailable("credential provider returned an unusable secret"@))
        },
{
}

/// `credential_header` makes the header of the whole prefix and the whole secret, marked sensitive.
pub proof fn law_credential_header_is_whole(
    injection: CredentialHeaderInjection,
    returned: Vec<u8>,
    secret: Seq<u8>,
    header: Result<CredentialHeader, ProxyError>,
)
    requires
        call_ensures(credential_header, (&injection, returned), header),
        secret.len() > 0,
        forall|i: int|
            #![trigger secret[i]]
            0 <= i < secret.len() ==> 32 <= secret[i] && secret[i] != 127,
        returned@ == secret || returned@ == secret + seq![10u8] || returned@ == secret + seq![13u8]
            || returned@ == secret + seq![13u8, 10u8],
    ensures
        header is Ok <==> {
            &&& is_header_name(injection.header@)
            &&& !is_protected(lowercase(injection.header@))
            &&& is_header_value(vstd::utf8::encode_utf8(injection.prefix@))
        },
        header matches Ok(h) ==> {
            &&& h.name@ == lowercase(injection.header@)
            &&& h.value@ == vstd::utf8::encode_utf8(injection.prefix@) + secret
            &&& h.sensitive
        },
        header matches Err(error) ==> {
            if !is_header_name(injection.header@) {
                error matches ProxyError::SubstrateEgressDenied(m) && m@
                    == "invalid credential header: "@ + "invalid HTTP header name"@
            } else if is_protected(lowercase(injection.header@)) {
                error matches ProxyError::SubstrateEgressDenied(m) && m@
                    == "credential effects cannot modify protected header "@ + lowercase(
                    injection.header@,
                )
            } else {
                error matches ProxyError::SubstrateEgressUnavailable(m) && m@
                    == "credential header value is invalid: "@ + "failed to parse header value"@
            }
        },
{
    law_credential_headers(injection, returned@, secret);
}

/// What is no usable secret becomes no header.
pub proof fn law_credential_header_fails_closed(
    injection: CredentialHeaderInjection,
    returned: Vec<u8>,
    header: Result<CredentialHeader, ProxyError>,
)
    requires
        call_ensures(credential_header, (&injection, returned), header),
        secret_in(returned@) is Err,
    ensures
        header matches Err(error) && {
            if !is_header_name(injection.header@) {
                error matches ProxyError::SubstrateEgressDenied(m) && m@
                    == "invalid credential header: "@ + "invalid HTTP header name"@
            } else if is_protected(lowercase(injection.header@)) {
                error matches ProxyError::SubstrateEgressDenied(m) && m@
                    == "credential effects cannot modify protected header "@ + lowercase(
                    injection.header@,
                )
            } else {
                error matches ProxyError::SubstrateEgressUnavailable(m) && m@
                    == "credential provider returned an unusable secret"@
            }
        },
{
    law_no_secret_no_header(injection, returned@);
}

/// A provider's failure is answered as unavailable exactly for the codes 14 and 4, and as denied
/// otherwise. The message names the provider that the URI names, and gives the whole text of the status.
pub proof fn law_provider_failures_name_the_provider(uri: &str, status: Status, error: ProxyError)
    requires
        call_ensures(credential_provider_error, (uri, &status), error),
    ensures
        ({
            let provider = match provider_of(uri@) {
                Some(name) => name,
                None => "unknown"@,
            };
            if status.code == 14 || status.code == 4 {
                error matches ProxyError::SubstrateEgressUnavailable(m) && m@
                    == "credential provider "@ + provider + " unavailable: "@ + status.text()
            } else {
                error matches ProxyError::SubstrateEgressDenied(m) && m@
                    == "credential provider "@ + provider + " denied: "@ + status.text()
            }
        }),
{
}

} // verus!
