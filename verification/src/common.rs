use vstd::prelude::*;

verus! {

/// Length in bytes of a node or target [Id].
pub const ID_SIZE: usize = 20;

/// A 160 bit Kademlia identifier of a node, an info hash or a stored item.
#[derive(Clone, Copy, Debug, PartialEq, Eq, Hash)]
pub struct Id(pub [u8; 20]);

impl Id {
    /// Returns the 20 bytes of this id.
    pub fn as_bytes(&self) -> (bytes: &[u8; 20])
        ensures
            bytes@ == self.0@,
    {
        &self.0
    }
}

/// An IPv4 socket address: four octets and a port.
#[derive(Clone, Copy, Debug, PartialEq, Eq, Hash)]
pub struct Address {
    pub ip: [u8; 4],
    pub port: u16,
}

impl Address {
    /// Creates an address from its octets and port.
    pub fn new(ip: [u8; 4], port: u16) -> (a: Address)
        ensures
            a.ip == ip,
            a.port == port,
    {
        Address { ip, port }
    }

    /// Whether two addresses have the same octets and port.
    pub fn same_as(&self, other: &Address) -> (same: bool)
        ensures
            same == (*self == *other),
    {
        let same = self.ip[0] == other.ip[0] && self.ip[1] == other.ip[1] && self.ip[2] == other.ip[2]
            && self.ip[3] == other.ip[3] && self.port == other.port;
        if same {
            assert(self.ip@ =~= other.ip@);
            assert(self.ip == other.ip);
        }
        same
    }
}

/// A node of the DHT: its id and the address it answers on.
#[derive(Clone, Copy, Debug, PartialEq, Eq, Hash)]
pub struct Node {
    pub id: Id,
    pub address: Address,
}

impl Node {
    /// Creates a node from its id and address.
    pub fn new(id: Id, address: Address) -> (n: Node)
        ensures
            n.id == id,
            n.address == address,
    {
        Node { id, address }
    }
}

} // verus!
