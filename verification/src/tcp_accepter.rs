use vstd::prelude::*;

verus! {

/// An IP address by its bytes, in network order.
#[derive(Debug, Clone, Copy, PartialEq, Eq)]
pub enum IpAddress {
    V4([u8; 4]),
    V6([u8; 16]),
}

/// The bytes of an address.
pub open spec fn ip_bytes(ip: IpAddress) -> Seq<u8> {
    match ip {
        IpAddress::V4(b) => b@,
        IpAddress::V6(b) => b@,
    }
}

/// Whether an address is the unspecified one (`0.0.0.0` or `::`), which
/// stands for every address of the host: all its bytes are zero.
pub open spec fn unspecified(ip: IpAddress) -> bool {
    forall|i: int| 0 <= i < ip_bytes(ip).len() ==> #[trigger] ip_bytes(ip)[i] == 0
}

fn all_zero(b: &[u8]) -> (r: bool)
    ensures
        r == (forall|i: int| 0 <= i < b@.len() ==> #[trigger] b@[i] == 0),
{
    let mut i: usize = 0;
    while i < b.len()
        invariant
            i <= b@.len(),
            forall|j: int| 0 <= j < i ==> #[trigger] b@[j] == 0,
        decreases b@.len() - i,
    {
        if b[i] != 0 {
            return false;
        }
        i = i + 1;
    }
    true
}

impl IpAddress {
    /// Whether this is the unspecified address (`0.0.0.0` or `::`).
    pub fn is_unspecified(&self) -> (r: bool)
        ensures
            r == unspecified(*self),
    {
        match self {
            IpAddress::V4(b) => {
                let s = b.as_slice();
                assert(ip_bytes(*self) == s@);
                all_zero(s)
            },
            IpAddress::V6(b) => {
                let s = b.as_slice();
                assert(ip_bytes(*self) == s@);
                all_zero(s)
            },
        }
    }

    /// Whether this is an IPv4 address.
    pub fn is_ipv4(&self) -> (r: bool)
        ensures
            r == (*self is V4),
    {
        match self {
            IpAddress::V4(_) => true,
            IpAddress::V6(_) => false,
        }
    }
}

/// The TCP accepter's decisions. Listening and accepting are the program's own.
pub struct TcpAccepterPlan;

impl TcpAccepterPlan {
    /// Whether a port mapping is asked of the router when listening on `ip`:
    /// only with the mapping enabled, on IPv4, and on the unspecified address.
    pub fn wants_port_mapping(ip: &IpAddress, use_upnp: bool) -> (r: bool)
        ensures
            r == (use_upnp && *ip is V4 && unspecified(*ip)),
    {
        use_upnp && ip.is_ipv4() && ip.is_unspecified()
    }

    /// The addresses that this node tells other nodes, as address and port.
    /// Listening on a given address, that address with the listening port;
    /// listening on the unspecified address, each of the host's reachable
    /// addresses `reachable`, in order, with the listening port.
    pub fn advertised_endpoints(local_ip: &IpAddress, port: u16, reachable: &Vec<IpAddress>) -> (r: Vec<
        (IpAddress, u16),
    >)
        ensures
            !unspecified(*local_ip) ==> r@ == seq![(*local_ip, port)],
            unspecified(*local_ip) ==> r@ == reachable@.map_values(|ip: IpAddress| (ip, port)),
            forall|i: int| 0 <= i < r@.len() ==> (#[trigger] r@[i]).1 == port,
            (forall|i: int| 0 <= i < reachable@.len() ==> !unspecified(#[trigger] reachable@[i])) ==> forall|i: int|
                0 <= i < r@.len() ==> !unspecified((#[trigger] r@[i]).0),
    {
        let mut r: Vec<(IpAddress, u16)> = Vec::new();
        if !local_ip.is_unspecified() {
            r.push((*local_ip, port));
            assert(r@ =~= seq![(*local_ip, port)]);
            return r;
        }
        let mut i: usize = 0;
        while i < reachable.len()
            invariant
                i <= reachable@.len(),
                r@ == reachable@.take(i as int).map_values(|ip: IpAddress| (ip, port)),
            decreases reachable@.len() - i,
        {
            r.push((reachable[i], port));
            assert(reachable@.take(i + 1).map_values(|ip: IpAddress| (ip, port)) =~= reachable@.take(
                i as int,
            ).map_values(|ip: IpAddress| (ip, port)).push((reachable@[i as int], port)));
            i = i + 1;
        }
        assert(reachable@.take(i as int) =~= reachable@);
        r
    }
}

} // verus!
