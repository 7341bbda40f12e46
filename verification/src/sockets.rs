//! The examination of sockets that are passed to the application.

use vstd::prelude::*;

verus! {

/// The communication domain of a socket.
#[derive(Clone, Copy, Debug, Eq, Hash, PartialEq, Structural)]
pub enum Domain {
    /// IPv4.
    Ipv4,
    /// IPv6.
    Ipv6,
    /// UNIX-domain.
    Unix,
    /// Any other domain.
    Other,
}

/// A kind of listener.
#[derive(Clone, Copy, Debug, Eq, Hash, PartialEq, Structural)]
pub enum ListenerKind {
    /// A listener for TCP connections.
    Tcp,
    /// A listener for UNIX-domain connections.
    Unix,
}

/// Why a passed socket is of no use.
#[derive(Clone, Copy, Debug, Eq, Hash, PartialEq)]
pub enum SocketError<E> {
    /// The socket could not be examined.
    Query(E),
    /// The socket is not listening.
    NotListening,
    /// The socket is in blocking mode.
    Blocking,
    /// The socket is of a domain that is not supported.
    WrongDomain,
}

/// The kind of listener that a socket of a domain makes, if it makes one.
pub open spec fn kind_of(domain: Domain) -> Option<ListenerKind> {
    match domain {
        Domain::Ipv4 | Domain::Ipv6 => Some(ListenerKind::Tcp),
        Domain::Unix => Some(ListenerKind::Unix),
        Domain::Other => None,
    }
}

/// Returns the kind of listener that a socket of a domain makes, if it makes one.
pub fn listener_kind(domain: Domain) -> (kind: Option<ListenerKind>)
    ensures
        kind == kind_of(domain),
{
    match domain {
        Domain::Ipv4 | Domain::Ipv6 => Some(ListenerKind::Tcp),
        Domain::Unix => Some(ListenerKind::Unix),
        Domain::Other => None,
    }
}

/// What the answers to the three questions about a passed socket say about it: the questions are
/// considered in order, and the first answer that is missing or unfit decides, except that the
/// domain is judged last.
pub open spec fn socket_verdict<E>(
    domain: Result<Domain, E>,
    listening: Result<bool, E>,
    nonblocking: Result<bool, E>,
) -> Result<ListenerKind, SocketError<E>> {
    match (domain, listening, nonblocking) {
        (Err(e), _, _) => Err(SocketError::Query(e)),
        (_, Err(e), _) => Err(SocketError::Query(e)),
        (_, Ok(false), _) => Err(SocketError::NotListening),
        (_, _, Err(e)) => Err(SocketError::Query(e)),
        (_, _, Ok(false)) => Err(SocketError::Blocking),
        (Ok(domain), _, _) => match kind_of(domain) {
            Some(kind) => Ok(kind),
            None => Err(SocketError::WrongDomain),
        },
    }
}

/// Verifies that a passed socket actually exists, is a socket, and is set up properly, given the
/// answers to the questions for its domain, whether it is listening, and whether it is in
/// non-blocking mode.
pub fn check_passed_socket<E>(
    domain: Result<Domain, E>,
    listening: Result<bool, E>,
    nonblocking: Result<bool, E>,
) -> (result: Result<ListenerKind, SocketError<E>>)
    ensures
        result == socket_verdict(domain, listening, nonblocking),
{
    let domain: Domain = match domain {
        Ok(domain) => domain,
        Err(e) => {
            return Err(SocketError::Query(e));
        },
    };
    match listening {
        Ok(true) => {},
        Ok(false) => {
            return Err(SocketError::NotListening);
        },
        Err(e) => {
            return Err(SocketError::Query(e));
        },
    }
    match nonblocking {
        Ok(true) => {},
        Ok(false) => {
            return Err(SocketError::Blocking);
        },
        Err(e) => {
            return Err(SocketError::Query(e));
        },
    }
    match listener_kind(domain) {
        Some(kind) => Ok(kind),
        None => Err(SocketError::WrongDomain),
    }
}

impl<E> SocketError<E> {
    /// The text that describes the error, unless the socket could not be examined, for which the
    /// error of the examination stands.
    pub fn message(&self) -> (text: Option<String>)
        ensures
            match self {
                SocketError::Query(_) => text is None,
                SocketError::NotListening => text is Some && text->Some_0@
                    == "A systemd-style passed socket was not listening"@,
                SocketError::Blocking => text is Some && text->Some_0@
                    == "A systemd-style passed socket was in blocking mode"@,
                SocketError::WrongDomain => text is Some && text->Some_0@
                    == "A systemd-style passed socket was not IPv4, IPv6, or UNIX-domain"@,
            },
    {
        match self {
            SocketError::Query(_) => None,
            SocketError::NotListening => Some(
                "A systemd-style passed socket was not listening".to_owned(),
            ),
            SocketError::Blocking => Some(
                "A systemd-style passed socket was in blocking mode".to_owned(),
            ),
            SocketError::WrongDomain => Some(
                "A systemd-style passed socket was not IPv4, IPv6, or UNIX-domain".to_owned(),
            ),
        }
    }
}

/// A socket that has passed the examination makes a listener of the kind that was found, so that it
/// can be put to use later without another doubt about its domain.
pub proof fn law_checked_sockets_make_listeners<E>(
    domain: Domain,
    listening: Result<bool, E>,
    nonblocking: Result<bool, E>,
)
    ensures
        socket_verdict(Ok(domain), listening, nonblocking) is Ok ==> kind_of(domain) == Some(
            socket_verdict(Ok(domain), listening, nonblocking)->Ok_0,
        ) && listening == Ok::<bool, E>(true) && nonblocking == Ok::<bool, E>(true),
{
}

/// Sockets of the two Internet domains make TCP listeners, those of the UNIX domain make UNIX
/// listeners, and no others make any.
pub proof fn law_domains_and_listeners(domain: Domain)
    ensures
        kind_of(domain) == Some(ListenerKind::Tcp) <==> domain is Ipv4 || domain is Ipv6,
        kind_of(domain) == Some(ListenerKind::Unix) <==> domain is Unix,
        kind_of(domain) is None <==> domain is Other,
{
}

/// Every socket that can be examined, is listening, does not block and is of a known domain is
/// accepted, and no other socket is.
pub proof fn law_good_sockets_are_accepted<E>(
    domain: Result<Domain, E>,
    listening: Result<bool, E>,
    nonblocking: Result<bool, E>,
)
    ensures
        socket_verdict(domain, listening, nonblocking) is Ok <==> {
            &&& domain is Ok
            &&& domain->Ok_0 !is Other
            &&& listening == Ok::<bool, E>(true)
            &&& nonblocking == Ok::<bool, E>(true)
        },
        socket_verdict(domain, listening, nonblocking) matches Ok(kind) ==> (kind is Unix
            <==> domain->Ok_0 is Unix),
{
}

/// A socket is refused for the first thing that is wrong with it: an error in examining it counts where
/// it occurs, a domain that is not known counts last.
pub proof fn law_sockets_are_refused_in_order<E>(
    domain: Domain,
    listening: Result<bool, E>,
    nonblocking: Result<bool, E>,
    e: E,
)
    ensures
        socket_verdict(Err(e), listening, nonblocking) == Err::<ListenerKind, SocketError<E>>(
            SocketError::Query(e),
        ),
        socket_verdict(Ok(domain), Err(e), nonblocking) == Err::<ListenerKind, SocketError<E>>(
            SocketError::Query(e),
        ),
        socket_verdict(Ok(domain), Ok(false), nonblocking) == Err::<ListenerKind, SocketError<E>>(
            SocketError::NotListening,
        ),
        socket_verdict(Ok(domain), Ok(true), Err(e)) == Err::<ListenerKind, SocketError<E>>(
            SocketError::Query(e),
        ),
        socket_verdict(Ok(domain), Ok(true), Ok::<bool, E>(false)) == Err::<
            ListenerKind,
            SocketError<E>,
        >(SocketError::Blocking),
        domain is Other ==> socket_verdict(Ok(domain), Ok(true), Ok::<bool, E>(true)) == Err::<
            ListenerKind,
            SocketError<E>,
        >(SocketError::WrongDomain),
{
}

} // verus!
