use vstd::prelude::*;

use crate::error::{Error, ErrorKind};

verus! {

/// Whether outgoing TCP connections go through a proxy, and which.
#[derive(Debug, Clone, Copy, PartialEq, Eq, Structural)]
pub enum TcpProxyType {
    NoProxy,
    Socks5,
}

/// The proxy for outgoing TCP connections: its type and, for a proxy, its address.
#[derive(Debug)]
pub struct TcpProxyOption {
    pub typ: TcpProxyType,
    pub addr: Option<String>,
}

/// How a connection to a node is opened, to the node's parsed address `target`.
#[derive(Debug)]
pub enum ConnectRoute<T> {
    /// Straight to the node's TCP address.
    Direct(T),
    /// Through the SOCKS5 proxy at `proxy_addr`.
    Socks5 { proxy_addr: String, target: T },
}

/// The message of the error given when a SOCKS5 connection has no proxy address.
pub open spec fn socks5_failure_text(addr: Seq<char>) -> Seq<char> {
    seq![
        'f', 'a', 'i', 'l', 'e', 'd', ' ', 't', 'o', ' ', 'c', 'o', 'n', 'n', 'e', 'c', 't', ' ', 'b', 'y',
        ' ', 's', 'o', 'c', 'k', 's', '5', ':', ' ',
    ] + addr
}

/// Opens outgoing TCP connections, straight or through a proxy. Opening the
/// socket is the program's own; the route is decided here.
pub struct ConnectionTcpConnectorImpl {
    proxy_option: TcpProxyOption,
}

impl ConnectionTcpConnectorImpl {
    /// A connector with the given proxy option; this always succeeds.
    pub fn new(proxy_option: TcpProxyOption) -> (r: Result<Self, Error>)
        ensures
            r matches Ok(c) && c.proxy_option() == proxy_option,
    {
        Ok(ConnectionTcpConnectorImpl { proxy_option })
    }

    /// The proxy option this connector was made with.
    pub closed spec fn proxy_option(&self) -> TcpProxyOption {
        self.proxy_option
    }

    /// The type of proxy this connector goes through.
    pub fn proxy_type(&self) -> (r: TcpProxyType)
        ensures
            r == self.proxy_option().typ,
    {
        self.proxy_option.typ
    }

    /// How a connection to the node at `addr` is opened. `parsed` is the
    /// outcome of reading `addr` as the proxy type needs it (an IP socket
    /// address without a proxy, a host and port for SOCKS5); a failed reading
    /// is the answer. Else: straight to the node without a proxy; through the
    /// proxy when it is SOCKS5 and has an address; else a network error that
    /// names `addr`.
    pub fn route<T>(&self, addr: &str, parsed: Result<T, Error>) -> (r: Result<ConnectRoute<T>, Error>)
        ensures
            match parsed {
                Err(e) => r == Err::<ConnectRoute<T>, Error>(e),
                Ok(t) => match self.proxy_option().typ {
                    TcpProxyType::NoProxy => r == Ok::<ConnectRoute<T>, Error>(ConnectRoute::Direct(t)),
                    TcpProxyType::Socks5 => match self.proxy_option().addr {
                        Some(p) => r matches Ok(ConnectRoute::Socks5 { proxy_addr, target }) && proxy_addr@ == p@
                            && target == t,
                        None => {
                            &&& r matches Err(e)
                            &&& e.kind == ErrorKind::NetworkError
                            &&& e.message matches Some(m)
                            &&& m@ == socks5_failure_text(addr@)
                        },
                    },
                },
            },
    {
        let target = match parsed {
            Ok(t) => t,
            Err(e) => return Err(e),
        };
        match self.proxy_option.typ {
            TcpProxyType::NoProxy => Ok(ConnectRoute::Direct(target)),
            TcpProxyType::Socks5 => match &self.proxy_option.addr {
                Some(p) => Ok(ConnectRoute::Socks5 { proxy_addr: p.clone(), target }),
                None => {
                    let prefix = "failed to connect by socks5: ";
                    proof {
                        reveal_strlit("failed to connect by socks5: ");
                    }
                    let mut m = prefix.to_owned();
                    m.append(addr);
                    proof {
                        assert(m@ =~= socks5_failure_text(addr@));
                    }
                    Err(Error::new(ErrorKind::NetworkError).with_message(m))
                },
            },
        }
    }
}

} // verus!
