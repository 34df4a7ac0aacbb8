//! Who may open a tunnel: the actor named by an authenticated certificate, while it is running.

use vstd::prelude::*;

use crate::certificate::{
    der_certificate, parse_certificate, parse_pem, pem_contents, AltName, AltNames, AltNamesView,
    Certificate, CertificateView,
};
use crate::credential::actor_spiffe_id;
use crate::error::{
    answer_failed_call, denied, denied_with, failed_call, ProxyError, Refusal, Status,
};
use crate::request::{text_of, ActorIdentity, ActorRef, ConnectionInfo, Request};
use crate::text::{
    chars_of, lemma_split_joined, lemma_split_parts, split_at_first, split_once, strip_prefix,
    without_prefix,
};

verus! {

/// The longest name of an atespace or an actor that this library accepts. It is the limit of a DNS
/// label, chosen because both names stand as labels in the host names of actors.
pub const MAX_RESOURCE_NAME_LEN: usize = 63;

/// Whether `c` is a lower-case letter or a digit.
pub open spec fn is_lower_alphanumeric(c: char) -> bool {
    'a' <= c <= 'z' || '0' <= c <= '9'
}

/// Whether `name` can name an atespace or an actor: a DNS label in lower case.
pub open spec fn is_resource_name(name: Seq<char>) -> bool {
    &&& 0 < name.len() <= MAX_RESOURCE_NAME_LEN
    &&& is_lower_alphanumeric(name[0])
    &&& is_lower_alphanumeric(name.last())
    &&& forall|i: int|
        0 <= i < name.len() ==> is_lower_alphanumeric(#[trigger] name[i]) || name[i] == '-'
}

/// Whether `name` can name an atespace or an actor.
pub fn valid_resource_name(name: &str) -> (valid: bool)
    ensures
        valid == is_resource_name(name@),
{
    let chars: Vec<char> = chars_of(name);
    if chars.len() == 0 || chars.len() > MAX_RESOURCE_NAME_LEN {
        return false;
    }
    if chars[0] == '-' || chars[chars.len() - 1] == '-' {
        return false;
    }
    let mut i: usize = 0;
    while i < chars.len()
        invariant
            i <= chars.len(),
            chars@ == name@,
            forall|j: int|
                0 <= j < i ==> is_lower_alphanumeric(#[trigger] chars[j]) || chars[j] == '-',
        decreases chars.len() - i,
    {
        let c = chars[i];
        if !(('a' <= c && c <= 'z') || ('0' <= c && c <= '9') || c == '-') {
            assert(!is_lower_alphanumeric(name@[i as int]));
            return false;
        }
        i += 1;
    }
    true
}

/// The SPIFFE ID of the tunnel endpoint that acts for an actor.
pub open spec fn ateom_spiffe_id(atespace: Seq<char>, name: Seq<char>) -> Seq<char> {
    "spiffe://substrate-actor.local/ateom-for-actor/"@ + atespace + "/"@ + name
}

/// The denial of a certificate that names no actor.
pub open spec fn invalid_identity() -> Refusal {
    Refusal::Denied("invalid ateom-for-actor SPIFFE identity"@)
}

/// The actor that a tunnel endpoint with this SPIFFE ID acts for.
pub open spec fn actor_of_uri(uri: Seq<char>) -> Result<(Seq<char>, Seq<char>), Refusal> {
    match without_prefix(uri, "spiffe://substrate-actor.local/ateom-for-actor/"@) {
        Some(path) => match split_at_first(path, '/') {
            Some((atespace, name)) => if is_resource_name(atespace) && is_resource_name(name) {
                Ok((atespace, name))
            } else {
                Err(invalid_identity())
            },
            None => Err(invalid_identity()),
        },
        None => Err(invalid_identity()),
    }
}

/// The URIs among alternative names, in order.
pub open spec fn uris_among(names: Seq<Option<Seq<char>>>) -> Seq<Seq<char>>
    decreases names.len(),
{
    if names.len() == 0 {
        Seq::empty()
    } else {
        match names.last() {
            Some(uri) => uris_among(names.drop_last()).push(uri),
            None => uris_among(names.drop_last()),
        }
    }
}

/// The actor that the holder of a certificate acts for.
pub open spec fn actor_of_certificate(certificate: CertificateView) -> Result<
    (Seq<char>, Seq<char>),
    Refusal,
> {
    if certificate.is_ca {
        Err(Refusal::Denied("actor certificate is a CA certificate"@))
    } else {
        match certificate.alt_names {
            AltNamesView::Listed(names) => {
                let uris = uris_among(names);
                if uris.len() == 0 {
                    Err(invalid_identity())
                } else if uris.len() > 1 {
                    Err(Refusal::Denied("actor certificate has multiple URI SANs"@))
                } else {
                    actor_of_uri(uris[0])
                }
            },
            _ => Err(invalid_identity()),
        }
    }
}

/// The actor that the holder of a certificate acts for, if the certificate could be read.
pub open spec fn actor_of_parsed(certificate: Result<CertificateView, Seq<char>>) -> Result<
    (Seq<char>, Seq<char>),
    Refusal,
> {
    match certificate {
        Ok(cert) => actor_of_certificate(cert),
        Err(reason) => Err(Refusal::Denied("invalid actor certificate: "@ + reason)),
    }
}

/// The certificate that a request was authenticated by.
pub open spec fn certificate_of(req: Request) -> Option<Seq<char>> {
    match req.tls {
        Some(tls) => match tls.src_identity {
            Some(peer) => text_of(peer.certificate),
            None => None,
        },
        None => None,
    }
}

/// The actor that the sender of a request acts for.
pub open spec fn actor_of_request(req: Request) -> Result<(Seq<char>, Seq<char>), Refusal> {
    match certificate_of(req) {
        Some(text) => match pem_contents(text) {
            Ok(der) => actor_of_parsed(der_certificate(der)),
            Err(reason) => actor_of_parsed(Err(reason)),
        },
        None => Err(Refusal::Denied("missing authenticated actor certificate"@)),
    }
}

/// What a result with an actor in it says.
pub open spec fn actor_seen(result: Result<ActorRef, ProxyError>) -> Result<
    (Seq<char>, Seq<char>),
    Refusal,
> {
    match result {
        Ok(actor) => Ok(actor@),
        Err(error) => Err(error@),
    }
}

/// Reads an actor off the SPIFFE ID of a tunnel endpoint.
pub fn identity_of_uri(uri: &str) -> (actor: Result<ActorRef, ProxyError>)
    ensures
        actor_seen(actor) == actor_of_uri(uri@),
{
    if let Some(path) = strip_prefix(uri, "spiffe://substrate-actor.local/ateom-for-actor/") {
        if let Some((atespace, name)) = split_once(path, '/') {
            if valid_resource_name(atespace) && valid_resource_name(name) {
                return Ok(ActorRef { atespace: atespace.to_owned(), name: name.to_owned() });
            }
        }
    }
    Err(denied("invalid ateom-for-actor SPIFFE identity"))
}

/// Reads an actor off a certificate. TLS has authenticated the certificate; here it must belong to a
/// tunnel endpoint, since one issued to an actor itself must not open a tunnel.
#[verifier::loop_isolation(false)]
pub fn identity_of_certificate(certificate: &Certificate) -> (actor: Result<ActorRef, ProxyError>)
    ensures
        actor_seen(actor) == actor_of_certificate(certificate@),
{
    if certificate.is_ca {
        return Err(denied("actor certificate is a CA certificate"));
    }
    let names = match &certificate.alt_names {
        AltNames::Listed(names) => names,
        _ => {
            return Err(denied("invalid ateom-for-actor SPIFFE identity"));
        },
    };
    let ghost seen = names@.map_values(|name: AltName| name@);
    let mut count: usize = 0;
    let mut first: usize = 0;
    let mut i: usize = 0;
    while i < names.len()
        invariant
            i <= names.len(),
            count <= i,
            count == uris_among(seen.take(i as int)).len(),
            count > 0 ==> first < names.len() && names[first as int]@ == Some(
                uris_among(seen.take(i as int))[0],
            ),
        decreases names.len() - i,
    {
        assert(seen.take(i + 1).drop_last() == seen.take(i as int));
        assert(seen.take(i + 1).last() == names[i as int]@);
        if let AltName::Uri(_) = &names[i] {
            if count == 0 {
                first = i;
            }
            count += 1;
        }
        i += 1;
    }
    assert(seen.take(i as int) == seen);
    if count == 0 {
        return Err(denied("invalid ateom-for-actor SPIFFE identity"));
    }
    if count > 1 {
        return Err(denied("actor certificate has multiple URI SANs"));
    }
    match &names[first] {
        AltName::Uri(uri) => identity_of_uri(uri.as_str()),
        AltName::Other => Err(denied("invalid ateom-for-actor SPIFFE identity")),
    }
}

/// Reads an actor off what a certificate was parsed to, or off why it could not be parsed.
pub fn identity_of_parsed(certificate: Result<Certificate, String>) -> (actor: Result<
    ActorRef,
    ProxyError,
>)
    ensures
        actor_seen(actor) == actor_of_parsed(
            match certificate {
                Ok(cert) => Ok(cert@),
                Err(reason) => Err(reason@),
            },
        ),
{
    match certificate {
        Ok(certificate) => identity_of_certificate(&certificate),
        Err(reason) => Err(denied_with("invalid actor certificate: ", reason.as_str())),
    }
}

/// The state that the control plane reports of an actor.
#[derive(Clone, Copy, Debug, PartialEq, Eq, Structural)]
pub enum ActorState {
    /// It is running.
    Running,
    /// It is suspended.
    Suspended,
    /// Any other state, by its number.
    Other(i32),
}

/// What identifies a resource.
#[derive(Debug)]
pub struct ResourceMetadata {
    /// Its unique ID.
    pub uid: String,
}

/// How an actor is.
#[derive(Debug)]
pub struct ActorStatus {
    /// Its state.
    pub state: ActorState,
}

/// An actor, as the control plane reports it.
#[derive(Debug)]
pub struct Actor {
    /// What identifies it.
    pub metadata: Option<ResourceMetadata>,
    /// How it is.
    pub status: Option<ActorStatus>,
}

/// Validates an actor's identity before a tunnel is accepted.
pub struct EgressActorResolution<B> {
    /// The control plane, and how to connect to it.
    pub target: B,
}

/// Whether an actor is reported as running.
pub open spec fn is_running(actor: Actor) -> bool {
    actor.status matches Some(status) && status.state is Running
}

/// The unique ID that an actor is reported with, if it is not empty.
pub open spec fn uid_of(actor: Actor) -> Option<Seq<char>> {
    match actor.metadata {
        Some(metadata) => if metadata.uid@.len() > 0 {
            Some(metadata.uid@)
        } else {
            None
        },
        None => None,
    }
}

/// What the control plane's reply about `actor` comes to.
pub open spec fn authorization(
    actor: (Seq<char>, Seq<char>),
    reply: Result<Actor, Status>,
) -> Result<(Seq<char>, Seq<char>, Option<Seq<char>>), Refusal> {
    match reply {
        Ok(current) => if is_running(current) {
            Ok((actor.0, actor.1, uid_of(current)))
        } else {
            Err(Refusal::Denied("actor is not running"@))
        },
        Err(status) => Err(
            failed_call(
                status.is_outage(),
                status.text(),
                "actor identity check unavailable: "@,
                "actor identity check denied: "@,
            ),
        ),
    }
}

impl<B> EgressActorResolution<B> {
    /// The actor that the sender of a request acts for.
    pub fn identity(req: &Request) -> (actor: Result<ActorRef, ProxyError>)
        ensures
            actor_seen(actor) == actor_of_request(*req),
    {
        let text = match &req.tls {
            Some(tls) => match &tls.src_identity {
                Some(peer) => match &peer.certificate {
                    Some(text) => text,
                    None => {
                        return Err(denied("missing authenticated actor certificate"));
                    },
                },
                None => {
                    return Err(denied("missing authenticated actor certificate"));
                },
            },
            None => {
                return Err(denied("missing authenticated actor certificate"));
            },
        };
        match parse_pem(text.as_str()) {
            Ok(der) => identity_of_parsed(parse_certificate(der.as_slice())),
            Err(reason) => identity_of_parsed(Err(reason)),
        }
    }

    /// The first step of authorizing a tunnel: takes over what is known of the connection, and says
    /// which actor to ask the control plane about.
    pub fn authorize_connect(&self, connection: ConnectionInfo, req: &mut Request) -> (actor: Result<
        ActorRef,
        ProxyError,
    >)
        ensures
            *final(req) == (Request {
                tcp: Some(connection.tcp),
                tls: if connection.tls is Some {
                    connection.tls
                } else {
                    old(req).tls
                },
                ..*old(req)
            }),
            actor_seen(actor) == actor_of_request(*final(req)),
    {
        req.tcp = Some(connection.tcp);
        if connection.tls.is_some() {
            req.tls = connection.tls;
        }
        Self::identity(req)
    }

    /// The last step: decides by the control plane's reply.
    pub fn authorize(&self, actor: &ActorRef, reply: Result<Actor, Status>) -> (identity: Result<
        ActorIdentity,
        ProxyError,
    >)
        ensures
            match identity {
                Ok(id) => authorization(actor@, reply) == Ok::<
                    (Seq<char>, Seq<char>, Option<Seq<char>>),
                    Refusal,
                >(id@),
                Err(error) => authorization(actor@, reply) == Err::<
                    (Seq<char>, Seq<char>, Option<Seq<char>>),
                    Refusal,
                >(error@),
            },
    {
        let current = match reply {
            Ok(current) => current,
            Err(status) => {
                return Err(
                    answer_failed_call(
                        status.outage(),
                        status.to_text().as_str(),
                        "actor identity check unavailable: ",
                        "actor identity check denied: ",
                    ),
                );
            },
        };
        let running = match &current.status {
            Some(status) => status.state == ActorState::Running,
            None => false,
        };
        if !running {
            return Err(denied("actor is not running"));
        }
        let actor_uid = match current.metadata {
            Some(metadata) => if metadata.uid.as_str().is_empty() {
                None
            } else {
                Some(metadata.uid)
            },
            None => None,
        };
        Ok(
            ActorIdentity {
                atespace: actor.atespace.clone(),
                actor_name: actor.name.clone(),
                actor_uid,
            },
        )
    }
}

/// The SPIFFE ID of an actor's tunnel endpoint identifies that actor.
pub proof fn law_ateom_id_names_its_actor(atespace: Seq<char>, name: Seq<char>)
    requires
        is_resource_name(atespace),
        is_resource_name(name),
    ensures
        actor_of_uri(ateom_spiffe_id(atespace, name)) == Ok::<(Seq<char>, Seq<char>), Refusal>(
            (atespace, name),
        ),
{
    reveal_strlit("/");
    let scheme = "spiffe://substrate-actor.local/ateom-for-actor/"@;
    let uri = ateom_spiffe_id(atespace, name);
    assert(scheme.is_prefix_of(uri));
    assert(uri.skip(scheme.len() as int) == atespace + seq!['/'] + name);
    lemma_split_joined(atespace, '/', name);
}

/// Nothing but the exact SPIFFE ID of a tunnel endpoint identifies an actor: no other trust domain or
/// purpose, and no name that is not a resource name.
pub proof fn law_only_ateom_ids_name_actors(uri: Seq<char>)
    ensures
        actor_of_uri(uri) matches Ok((atespace, name)) ==> {
            &&& uri == ateom_spiffe_id(atespace, name)
            &&& is_resource_name(atespace)
            &&& is_resource_name(name)
        },
        actor_of_uri(uri) matches Err(refusal) ==> refusal == invalid_identity(),
{
    reveal_strlit("/");
    let scheme = "spiffe://substrate-actor.local/ateom-for-actor/"@;
    if let Ok((atespace, name)) = actor_of_uri(uri) {
        lemma_split_parts(uri.skip(scheme.len() as int), '/');
        assert(uri == scheme + uri.skip(scheme.len() as int));
    }
}

/// A certificate issued to an actor itself opens no tunnel.
pub proof fn law_actor_id_opens_no_tunnel(atespace: Seq<char>, name: Seq<char>)
    ensures
        actor_of_uri(actor_spiffe_id(atespace, name)) is Err,
{
    reveal_strlit("spiffe://substrate-actor.local/ateom-for-actor/");
    reveal_strlit("spiffe://substrate-actor.local/actor/");
    let scheme = "spiffe://substrate-actor.local/ateom-for-actor/"@;
    let uri = actor_spiffe_id(atespace, name);
    assert(uri[32] == 'c');
    assert(scheme[32] == 't');
    if scheme.is_prefix_of(uri) {
        assert(uri.subrange(0, scheme.len() as int)[32] == scheme[32]);
    }
}

/// Only a certificate that is no CA's and has exactly one URI among its names identifies an actor.
pub proof fn law_identity_needs_one_uri(certificate: CertificateView)
    ensures
        actor_of_certificate(certificate) is Ok ==> {
            &&& !certificate.is_ca
            &&& certificate.alt_names matches AltNamesView::Listed(names)
            &&& uris_among(names).len() == 1
            &&& actor_of_certificate(certificate) == actor_of_uri(uris_among(names)[0])
        },
        actor_of_certificate(certificate) matches Err(refusal) ==> refusal is Denied,
{
}

/// Only the certificate that TLS authenticated identifies an actor: without one a request is denied,
/// and nothing else about the request, its headers included, makes a difference.
pub proof fn law_only_tls_identifies_actors(req: Request, other: Request)
    ensures
        certificate_of(req) is None ==> actor_of_request(req) == Err::<
            (Seq<char>, Seq<char>),
            Refusal,
        >(Refusal::Denied("missing authenticated actor certificate"@)),
        certificate_of(req) == certificate_of(other) ==> actor_of_request(req) == actor_of_request(
            other,
        ),
        actor_of_request(req) matches Err(refusal) ==> refusal is Denied,
{
}

/// Only an actor reported as running is authorized, as the actor that was asked about; and a failed
/// check is answered with 503 if the control plane was out of reach, else with 403.
pub proof fn law_only_running_actors_are_authorized(
    actor: (Seq<char>, Seq<char>),
    reply: Result<Actor, Status>,
)
    ensures
        authorization(actor, reply) is Ok <==> (reply matches Ok(current) && is_running(current)),
        authorization(actor, reply) matches Ok((atespace, name, _)) ==> actor == (atespace, name),
        authorization(actor, reply) matches Err(refusal) ==> refusal.http_status() == (if reply
            matches Err(status) && status.is_outage() {
            503u16
        } else {
            403u16
        }),
{
}

/// A resource name has 1 to 63 characters, each of them a small letter, a digit or a hyphen, and no
/// hyphen at either end.
pub proof fn law_resource_names(name: &str, valid: bool)
    requires
        call_ensures(valid_resource_name, (name,), valid),
    ensures
        valid <==> {
            &&& 1 <= name@.len() <= 63
            &&& name@[0] != '-'
            &&& name@[name@.len() - 1] != '-'
            &&& forall|i: int|
                #![trigger name@[i]]
                0 <= i < name@.len() ==> 'a' <= name@[i] <= 'z' || '0' <= name@[i] <= '9'
                    || name@[i] == '-'
        },
        valid <==> is_resource_name(name@),
{
    if 1 <= name@.len() <= 63 && (forall|i: int|
        #![trigger name@[i]]
        0 <= i < name@.len() ==> 'a' <= name@[i] <= 'z' || '0' <= name@[i] <= '9' || name@[i]
            == '-') {
        assert(name@.last() == name@[name@.len() - 1]);
        assert forall|i: int| 0 <= i < name@.len() implies is_lower_alphanumeric(
            #[trigger] name@[i],
        ) || name@[i] == '-' by {}
    }
    if is_resource_name(name@) {
        assert(name@.last() == name@[name@.len() - 1]);
        assert forall|i: int|
            #![trigger name@[i]]
            0 <= i < name@.len() implies 'a' <= name@[i] <= 'z' || '0' <= name@[i] <= '9' || name@[i]
            == '-' by {
            assert(is_lower_alphanumeric(name@[i]) || name@[i] == '-');
        }
    }
}

/// A URI identifies an actor exactly if it is the fixed prefix of tunnel endpoints, the atespace, one
/// slash and the name, in full and with nothing more, where both are lower-case labels of 1 to 63
/// characters. Every other URI is denied.
pub proof fn law_actors_of_uris(uri: Seq<char>, atespace: Seq<char>, name: Seq<char>)
    ensures
        actor_of_uri(uri) == Ok::<(Seq<char>, Seq<char>), Refusal>((atespace, name)) <==> {
            &&& uri == "spiffe://substrate-actor.local/ateom-for-actor/"@ + atespace + "/"@ + name
            &&& 1 <= atespace.len() <= 63
            &&& atespace[0] != '-' && atespace[atespace.len() - 1] != '-'
            &&& forall|i: int|
                #![trigger atespace[i]]
                0 <= i < atespace.len() ==> 'a' <= atespace[i] <= 'z' || '0' <= atespace[i] <= '9'
                    || atespace[i] == '-'
            &&& 1 <= name.len() <= 63
            &&& name[0] != '-' && name[name.len() - 1] != '-'
            &&& forall|i: int|
                #![trigger name[i]]
                0 <= i < name.len() ==> 'a' <= name[i] <= 'z' || '0' <= name[i] <= '9' || name[i]
                    == '-'
        },
        actor_of_uri(uri) matches Err(refusal) ==> refusal == Refusal::Denied(
            "invalid ateom-for-actor SPIFFE identity"@,
        ),
{
    lemma_resource_name(atespace);
    lemma_resource_name(name);
    law_only_ateom_ids_name_actors(uri);
    if is_resource_name(atespace) && is_resource_name(name) {
        law_ateom_id_names_its_actor(atespace, name);
    }
}

proof fn lemma_resource_name(name: Seq<char>)
    ensures
        is_resource_name(name) <==> {
            &&& 1 <= name.len() <= 63
            &&& name[0] != '-' && name[name.len() - 1] != '-'
            &&& forall|i: int|
                #![trigger name[i]]
                0 <= i < name.len() ==> 'a' <= name[i] <= 'z' || '0' <= name[i] <= '9' || name[i]
                    == '-'
        },
        is_resource_name(name) ==> !name.contains('/'),
{
    if 1 <= name.len() <= 63 && (forall|i: int|
        #![trigger name[i]]
        0 <= i < name.len() ==> 'a' <= name[i] <= 'z' || '0' <= name[i] <= '9' || name[i] == '-') {
        assert(name.last() == name[name.len() - 1]);
        assert forall|i: int| 0 <= i < name.len() implies is_lower_alphanumeric(#[trigger] name[i])
            || name[i] == '-' by {}
    }
    if is_resource_name(name) {
        assert(name.last() == name[name.len() - 1]);
        assert forall|i: int|
            #![trigger name[i]]
            0 <= i < name.len() implies 'a' <= name[i] <= 'z' || '0' <= name[i] <= '9' || name[i]
            == '-' by {
            assert(is_lower_alphanumeric(name[i]) || name[i] == '-');
        }
    }
}

/// `identity_of_uri` reads both names off the URI in full, and reads none off any other URI.
pub proof fn law_identity_of_uris(
    uri: &str,
    actor: Result<ActorRef, ProxyError>,
    atespace: Seq<char>,
    name: Seq<char>,
)
    requires
        call_ensures(identity_of_uri, (uri,), actor),
    ensures
        (actor matches Ok(a) && a.atespace@ == atespace && a.name@ == name) <==> {
            &&& uri@ == "spiffe://substrate-actor.local/ateom-for-actor/"@ + atespace + "/"@ + name
            &&& 1 <= atespace.len() <= 63
            &&& atespace[0] != '-' && atespace[atespace.len() - 1] != '-'
            &&& forall|i: int|
                #![trigger atespace[i]]
                0 <= i < atespace.len() ==> 'a' <= atespace[i] <= 'z' || '0' <= atespace[i] <= '9'
                    || atespace[i] == '-'
            &&& 1 <= name.len() <= 63
            &&& name[0] != '-' && name[name.len() - 1] != '-'
            &&& forall|i: int|
                #![trigger name[i]]
                0 <= i < name.len() ==> 'a' <= name[i] <= 'z' || '0' <= name[i] <= '9' || name[i]
                    == '-'
        },
        actor is Err ==> (actor matches Err(ProxyError::SubstrateEgressDenied(message)) && message@
            == "invalid ateom-for-actor SPIFFE identity"@),
{
    law_actors_of_uris(uri@, atespace, name);
}

/// The URIs among names are all of them, in order: those of a list are those of its front followed by
/// those of its back, a URI is one of them, and another name is none.
pub proof fn law_uris_are_all_kept(
    front: Seq<Option<Seq<char>>>,
    back: Seq<Option<Seq<char>>>,
    uri: Seq<char>,
)
    ensures
        uris_among(Seq::empty()) == Seq::<Seq<char>>::empty(),
        uris_among(seq![Some(uri)]) == seq![uri],
        uris_among(seq![None::<Seq<char>>]) == Seq::<Seq<char>>::empty(),
        uris_among(front + back) == uris_among(front) + uris_among(back),
    decreases back.len(),
{
    let one = seq![Some(uri)];
    let none = seq![None::<Seq<char>>];
    assert(one.drop_last() == Seq::<Option<Seq<char>>>::empty());
    assert(none.drop_last() == Seq::<Option<Seq<char>>>::empty());
    reveal_with_fuel(uris_among, 2);
    if back.len() == 0 {
        assert(front + back == front);
        assert(uris_among(back) == Seq::<Seq<char>>::empty());
    } else {
        law_uris_are_all_kept(front, back.drop_last(), uri);
        assert((front + back).drop_last() == front + back.drop_last());
        assert((front + back).last() == back.last());
        assert(uris_among(front + back) == uris_among(front) + uris_among(back));
    }
}

/// A certificate without a URI among its names, with one, and with two or more, in terms of the names
/// themselves.
pub proof fn law_uris_by_count(names: Seq<Option<Seq<char>>>)
    ensures
        uris_among(names).len() == 0 <==> forall|i: int|
            0 <= i < names.len() ==> (#[trigger] names[i]) is None,
        uris_among(names).len() > 1 <==> exists|i: int, j: int|
            0 <= i < j < names.len() && (#[trigger] names[i]) is Some && (#[trigger] names[j]) is Some,
        uris_among(names).len() == 1 ==> exists|i: int|
            {
                &&& 0 <= i < names.len()
                &&& #[trigger] names[i] == Some(uris_among(names)[0])
                &&& forall|j: int| 0 <= j < names.len() && j != i ==> (#[trigger] names[j]) is None
            },
    decreases names.len(),
{
    if names.len() > 0 {
        let front = names.drop_last();
        let n = names.len() - 1;
        law_uris_by_count(front);
        assert forall|i: int| 0 <= i < n implies #[trigger] front[i] == names[i] by {}
        if uris_among(front).len() == 0 {
            assert forall|i: int| 0 <= i < n implies (#[trigger] names[i]) is None by {
                assert(front[i] is None);
            }
        } else {
            let some = choose|i: int| 0 <= i < front.len() && (#[trigger] front[i]) is Some;
            assert(names[some] is Some);
            assert(names[n] == names.last());
        }
        if uris_among(front).len() > 1 {
            let (i, j) = choose|i: int, j: int|
                0 <= i < j < front.len() && (#[trigger] front[i]) is Some && (
                #[trigger] front[j]) is Some;
            assert(names[i] is Some && names[j] is Some);
        }
        if uris_among(front).len() == 1 {
            let only = choose|i: int|
                {
                    &&& 0 <= i < front.len()
                    &&& #[trigger] front[i] == Some(uris_among(front)[0])
                    &&& forall|j: int|
                        0 <= j < front.len() && j != i ==> (#[trigger] front[j]) is None
                };
            assert(names[only] == Some(uris_among(front)[0]));
            assert forall|j: int| 0 <= j < n && j != only implies (#[trigger] names[j]) is None by {
                assert(front[j] is None);
            }
        }
        if names.last() is Some {
            assert(names[n] is Some);
        }
    }
}

/// A certificate identifies an actor by the one URI among its names, if it is no CA's. A CA's, one
/// without names or without a URI, and one with two URIs are denied, each for its own reason.
pub proof fn law_identity_of_certificates(
    certificate: Certificate,
    actor: Result<ActorRef, ProxyError>,
)
    requires
        call_ensures(identity_of_certificate, (&certificate,), actor),
    ensures
        certificate.is_ca ==> (actor matches Err(ProxyError::SubstrateEgressDenied(m)) && m@
            == "actor certificate is a CA certificate"@),
        !certificate.is_ca ==> match certificate.alt_names {
            AltNames::Listed(names) => {
                &&& (forall|i: int| 0 <= i < names.len() ==> !((#[trigger] names[i]) is Uri)) ==> (
                actor matches Err(ProxyError::SubstrateEgressDenied(m)) && m@
                    == "invalid ateom-for-actor SPIFFE identity"@)
                &&& (exists|i: int, j: int|
                    0 <= i < j < names.len() && (#[trigger] names[i]) is Uri && (
                    #[trigger] names[j]) is Uri) ==> (actor matches Err(
                    ProxyError::SubstrateEgressDenied(m),
                ) && m@ == "actor certificate has multiple URI SANs"@)
                &&& forall|i: int|
                    {
                        &&& 0 <= i < names.len()
                        &&& (#[trigger] names[i]) is Uri
                        &&& forall|j: int|
                            0 <= j < names.len() && j != i ==> !((#[trigger] names[j]) is Uri)
                    } ==> match actor {
                        Ok(a) => actor_of_uri(names[i]->Uri_0@) == Ok::<
                            (Seq<char>, Seq<char>),
                            Refusal,
                        >((a.atespace@, a.name@)),
                        Err(error) => actor_of_uri(names[i]->Uri_0@) == Err::<
                            (Seq<char>, Seq<char>),
                            Refusal,
                        >(error@),
                    }
            },
            _ => actor matches Err(ProxyError::SubstrateEgressDenied(m)) && m@
                == "invalid ateom-for-actor SPIFFE identity"@,
        },
{
    if let AltNames::Listed(names) = certificate.alt_names {
        let seen = names@.map_values(|name: AltName| name@);
        law_uris_by_count(seen);
        assert forall|i: int| 0 <= i < names.len() implies (#[trigger] seen[i] is Some
            <==> names[i] is Uri) && (names[i] is Uri ==> seen[i] == Some(names[i]->Uri_0@)) by {}
        let none = forall|i: int| 0 <= i < names.len() ==> !((#[trigger] names[i]) is Uri);
        let many = exists|i: int, j: int|
            0 <= i < j < names.len() && (#[trigger] names[i]) is Uri && (#[trigger] names[j]) is Uri;
        if none {
            assert forall|i: int| 0 <= i < seen.len() implies (#[trigger] seen[i]) is None by {
                assert(!(names[i] is Uri));
            }
        }
        if many {
            let (i, j) = choose|i: int, j: int|
                0 <= i < j < names.len() && (#[trigger] names[i]) is Uri && (
                #[trigger] names[j]) is Uri;
            assert(seen[i] is Some && seen[j] is Some);
        }
        assert forall|i: int|
            {
                &&& 0 <= i < names.len()
                &&& (#[trigger] names[i]) is Uri
                &&& forall|j: int|
                    0 <= j < names.len() && j != i ==> !((#[trigger] names[j]) is Uri)
            } && !certificate.is_ca implies uris_among(seen).len() == 1 && uris_among(seen)[0]
            == names[i]->Uri_0@ by {
            assert(seen[i] is Some);
            assert forall|j: int| 0 <= j < seen.len() && j != i implies (#[trigger] seen[j]) is None by {
                assert(!(names[j] is Uri));
            }
            if uris_among(seen).len() > 1 {
                let (x, y) = choose|x: int, y: int|
                    0 <= x < y < seen.len() && (#[trigger] seen[x]) is Some && (
                    #[trigger] seen[y]) is Some;
                assert(x == i && y == i);
            }
            let only = choose|o: int|
                {
                    &&& 0 <= o < seen.len()
                    &&& #[trigger] seen[o] == Some(uris_among(seen)[0])
                    &&& forall|j: int| 0 <= j < seen.len() && j != o ==> (#[trigger] seen[j]) is None
                };
            assert(only == i);
        }
    }
}

/// What could not be parsed is denied with the whole reason; what could is judged as a certificate.
pub proof fn law_unreadable_certificates_are_denied(
    certificate: Result<Certificate, String>,
    actor: Result<ActorRef, ProxyError>,
)
    requires
        call_ensures(identity_of_parsed, (certificate,), actor),
    ensures
        certificate matches Err(reason) ==> (actor matches Err(
            ProxyError::SubstrateEgressDenied(m),
        ) && m@ == "invalid actor certificate: "@ + reason@),
        certificate matches Ok(cert) ==> match actor {
            Ok(a) => actor_of_certificate(cert@) == Ok::<(Seq<char>, Seq<char>), Refusal>(
                (a.atespace@, a.name@),
            ),
            Err(error) => actor_of_certificate(cert@) == Err::<(Seq<char>, Seq<char>), Refusal>(
                error@,
            ),
        },
{
}

/// A request is identified by the PEM text of the certificate that TLS authenticated: by the certificate
/// in its contents, or else denied with the reason why there is none. Without such a text it is denied.
pub proof fn law_identity_of_requests<B>(req: Request, actor: Result<ActorRef, ProxyError>)
    requires
        call_ensures(EgressActorResolution::<B>::identity, (&req,), actor),
    ensures
        !(req.tls is Some && req.tls->Some_0.src_identity is Some
            && req.tls->Some_0.src_identity->Some_0.certificate is Some) ==> (actor matches Err(
            ProxyError::SubstrateEgressDenied(m),
        ) && m@ == "missing authenticated actor certificate"@),
        req.tls matches Some(tls) ==> (tls.src_identity matches Some(peer) ==> (
        peer.certificate matches Some(text) ==> match pem_contents(text@) {
            Err(reason) => actor matches Err(ProxyError::SubstrateEgressDenied(m)) && m@
                == "invalid actor certificate: "@ + reason,
            Ok(der) => match der_certificate(der) {
                Err(reason) => actor matches Err(ProxyError::SubstrateEgressDenied(m)) && m@
                    == "invalid actor certificate: "@ + reason,
                Ok(certificate) => match actor {
                    Ok(a) => actor_of_certificate(certificate) == Ok::<
                        (Seq<char>, Seq<char>),
                        Refusal,
                    >((a.atespace@, a.name@)),
                    Err(error) => actor_of_certificate(certificate) == Err::<
                        (Seq<char>, Seq<char>),
                        Refusal,
                    >(error@),
                },
            },
        })),
{
}

/// `authorize_connect` takes over the connection that it is given, and only that, whatever comes of it;
/// and it says of the request what `identity` says of it then.
pub proof fn law_authorize_connect_takes_over_the_connection<B>(
    resolution: EgressActorResolution<B>,
    connection: ConnectionInfo,
    actor: Result<ActorRef, ProxyError>,
    identity: Result<ActorRef, ProxyError>,
)
    ensures
        forall|req: &mut Request| #[trigger]
            call_ensures(
                EgressActorResolution::<B>::authorize_connect,
                (&resolution, connection, req),
                actor,
            ) ==> {
                &&& final(req).tcp == Some(connection.tcp)
                &&& connection.tls is Some ==> final(req).tls == connection.tls
                &&& connection.tls is None ==> final(req).tls == req.tls
                &&& final(req).headers == req.headers
                &&& final(req).actor_identity == req.actor_identity
                &&& final(req).destination == req.destination
                &&& call_ensures(EgressActorResolution::<B>::identity, (&*final(req),), identity)
                    ==> match (actor, identity) {
                    (Ok(a), Ok(i)) => a.atespace@ == i.atespace@ && a.name@ == i.name@,
                    (Err(a), Err(i)) => a@ == i@,
                    _ => false,
                }
            },
{
}

/// An actor is authorized exactly if the control plane reports the state running: with no status, or
/// suspended, or in any other state, it is denied. Who is authorized is the actor that was asked about,
/// under both names, and with the reported unique ID unless that is empty.
pub proof fn law_only_the_running_state_authorizes<B>(
    resolution: EgressActorResolution<B>,
    actor: ActorRef,
    current: Actor,
    identity: Result<ActorIdentity, ProxyError>,
)
    requires
        call_ensures(
            EgressActorResolution::<B>::authorize,
            (&resolution, &actor, Ok::<Actor, Status>(current)),
            identity,
        ),
    ensures
        identity is Ok <==> current.status is Some && current.status->Some_0.state
            == ActorState::Running,
        identity is Err ==> (identity matches Err(ProxyError::SubstrateEgressDenied(m)) && m@
            == "actor is not running"@),
        identity matches Ok(id) ==> {
            &&& id.atespace@ == actor.atespace@
            &&& id.actor_name@ == actor.name@
            &&& id.actor_uid is Some <==> current.metadata is Some
                && current.metadata->Some_0.uid@.len() > 0
            &&& id.actor_uid matches Some(uid) ==> uid@ == current.metadata->Some_0.uid@
        },
{
}

/// The same of what a reply comes to.
pub proof fn law_other_states_are_denied(actor: (Seq<char>, Seq<char>), current: Actor)
    ensures
        current.status is None || current.status->Some_0.state != ActorState::Running
            ==> authorization(actor, Ok(current)) == Err::<
            (Seq<char>, Seq<char>, Option<Seq<char>>),
            Refusal,
        >(Refusal::Denied("actor is not running"@)),
        current.status is Some && current.status->Some_0.state == ActorState::Running
            ==> authorization(actor, Ok(current)) is Ok,
{
}

/// A failed check authorizes nobody. It is answered as unavailable exactly for the codes 14 and 4, with
/// the whole text of the status, and as denied otherwise.
pub proof fn law_failed_checks_authorize_nobody<B>(
    resolution: EgressActorResolution<B>,
    actor: ActorRef,
    status: Status,
    identity: Result<ActorIdentity, ProxyError>,
)
    requires
        call_ensures(
            EgressActorResolution::<B>::authorize,
            (&resolution, &actor, Err::<Actor, Status>(status)),
            identity,
        ),
    ensures
        if status.code == 14 || status.code == 4 {
            identity matches Err(ProxyError::SubstrateEgressUnavailable(m)) && m@
                == "actor identity check unavailable: "@ + status.text()
        } else {
            identity matches Err(ProxyError::SubstrateEgressDenied(m)) && m@
                == "actor identity check denied: "@ + status.text()
        },
{
}

} // verus!
