use vstd::prelude::*;

verus! {

/// The UDP endpoint a peer claims: an IPv4 or IPv6 address and a port.
#[derive(Clone, Copy, Debug, PartialEq, Eq, Hash)]
pub enum Endpoint {
    V4([u8; 4], u16),
    V6([u8; 16], u16),
}

/// The identity of a peer: its 32-byte node id together with the endpoint it
/// connected from.
#[derive(Clone, Copy, Debug, Eq, Hash)]
pub struct NodeAddress {
    pub endpoint: Endpoint,
    pub node_id: [u8; 32],
}

/// Byte-wise equality of two arrays of one length.
fn bytes_eq<const N: usize>(a: &[u8; N], b: &[u8; N]) -> (r: bool)
    ensures
        r == (*a == *b),
{
    broadcast use vstd::array::group_array_axioms;

    let mut i: usize = 0;
    while i < N
        invariant
            i <= N,
            a@.len() == N,
            b@.len() == N,
            forall|j: int| 0 <= j < i ==> a[j] == b[j],
        decreases N - i,
    {
        if a[i] != b[i] {
            return false;
        }
        i = i + 1;
    }
    assert(*a =~= *b);
    true
}

impl Endpoint {
    /// Whether two endpoints are the same address family, address and port.
    pub fn same_as(&self, other: &Endpoint) -> (r: bool)
        ensures
            r == (*self == *other),
    {
        match (self, other) {
            (Endpoint::V4(a, p), Endpoint::V4(b, q)) => *p == *q && bytes_eq(a, b),
            (Endpoint::V6(a, p), Endpoint::V6(b, q)) => *p == *q && bytes_eq(a, b),
            _ => false,
        }
    }
}

impl PartialEq for NodeAddress {
    fn eq(&self, other: &NodeAddress) -> (r: bool)
        ensures
            r == (*self == *other),
    {
        bytes_eq(&self.node_id, &other.node_id) && self.endpoint.same_as(&other.endpoint)
    }
}

impl vstd::std_specs::cmp::PartialEqSpecImpl for NodeAddress {
    open spec fn obeys_eq_spec() -> bool {
        true
    }

    open spec fn eq_spec(&self, other: &NodeAddress) -> bool {
        *self == *other
    }
}

/// The part of a peer's signed node record that admission looks at: the
/// UDP endpoints it advertises, if any.
#[derive(Clone, Copy, Debug, PartialEq, Eq)]
pub struct Enr {
    /// An IPv4 address and UDP port, when the record holds both.
    pub udp4_socket: Option<([u8; 4], u16)>,
    /// An IPv6 address and UDP port, when the record holds both.
    pub udp6_socket: Option<([u8; 16], u16)>,
}

impl Enr {
    /// A record advertises a reachable endpoint when it holds an IPv4 or an
    /// IPv6 UDP socket.
    pub open spec fn reachable(&self) -> bool {
        self.udp4_socket is Some || self.udp6_socket is Some
    }

    /// Whether the record advertises a reachable endpoint.
    pub fn is_reachable(&self) -> (r: bool)
        ensures
            r == self.reachable(),
    {
        self.udp4_socket.is_some() || self.udp6_socket.is_some()
    }
}

} // verus!
