//! What the egress code sees of a request.

use vstd::prelude::*;

use crate::policy::DestinationContext;

verus! {

/// An actor, by name.
#[derive(Debug)]
pub struct ActorRef {
    /// The atespace that the actor lives in.
    pub atespace: String,
    /// Its name there.
    pub name: String,
}

/// An actor that was let open a tunnel.
#[derive(Clone, Debug)]
pub struct ActorIdentity {
    /// The atespace that the actor lives in.
    pub atespace: String,
    /// Its name there.
    pub actor_name: String,
    /// Its unique ID, for the log; its certificate goes by name.
    pub actor_uid: Option<String>,
}

/// An end of a TCP connection.
#[derive(Clone, Copy, Debug, PartialEq, Eq, Structural)]
pub enum SocketAddress {
    /// IPv4: the address, as the number that its bytes spell in network order, and the port.
    V4(u32, u16),
    /// IPv6: the same, then flow information and scope ID.
    V6(u128, u16, u32, u32),
}

/// The ends of a TCP connection.
#[derive(Clone, Copy, Debug, PartialEq, Eq, Structural)]
pub struct TcpConnectionInfo {
    /// Where the peer is.
    pub peer_addr: SocketAddress,
    /// Where the peer connected to.
    pub local_addr: SocketAddress,
}

/// What TLS tells of the peer of a connection.
#[derive(Debug, Default)]
pub struct TlsInfo {
    /// The peer's certificate, in PEM, where it showed one that was accepted.
    pub certificate: Option<String>,
}

/// What is known of the TLS connection that a request came by.
#[derive(Debug, Default)]
pub struct TlsConnectionInfo {
    /// The authenticated peer.
    pub src_identity: Option<TlsInfo>,
}

/// What is known of the connection that a request comes by. There is always TCP below it.
#[derive(Debug)]
pub struct ConnectionInfo {
    /// The TCP connection.
    pub tcp: TcpConnectionInfo,
    /// The TLS connection over it, if there is one.
    pub tls: Option<TlsConnectionInfo>,
}

/// A request on its way out.
pub struct Request {
    /// Its headers.
    pub headers: http::HeaderMap<http::HeaderValue>,
    /// The TCP connection that it came by.
    pub tcp: Option<TcpConnectionInfo>,
    /// The TLS connection that it came by.
    pub tls: Option<TlsConnectionInfo>,
    /// The actor whose tunnel it came through.
    pub actor_identity: Option<ActorIdentity>,
    /// Where it is going.
    pub destination: Option<DestinationContext>,
}

/// What the access log keeps of the actor behind a request.
#[derive(Debug, Default)]
pub struct RequestLog {
    /// Name of the actor.
    pub ate_actor_name: Option<String>,
    /// Unique ID of the actor.
    pub ate_actor_uid: Option<String>,
    /// Atespace of the actor.
    pub ate_atespace: Option<String>,
}

/// An optional text, seen as its characters.
pub open spec fn text_of(text: Option<String>) -> Option<Seq<char>> {
    match text {
        Some(t) => Some(t@),
        None => None,
    }
}

/// A copy of an optional text.
pub(crate) fn copy_text(text: &Option<String>) -> (copy: Option<String>)
    ensures
        text_of(copy) == text_of(*text),
{
    match text {
        Some(t) => Some(t.clone()),
        None => None,
    }
}

impl View for ActorRef {
    type V = (Seq<char>, Seq<char>);

    open spec fn view(&self) -> (Seq<char>, Seq<char>) {
        (self.atespace@, self.name@)
    }
}

impl View for ActorIdentity {
    type V = (Seq<char>, Seq<char>, Option<Seq<char>>);

    open spec fn view(&self) -> (Seq<char>, Seq<char>, Option<Seq<char>>) {
        (self.atespace@, self.actor_name@, text_of(self.actor_uid))
    }
}

impl View for RequestLog {
    type V = (Option<Seq<char>>, Option<Seq<char>>, Option<Seq<char>>);

    open spec fn view(&self) -> (Option<Seq<char>>, Option<Seq<char>>, Option<Seq<char>>) {
        (text_of(self.ate_actor_name), text_of(self.ate_actor_uid), text_of(self.ate_atespace))
    }
}

} // verus!
