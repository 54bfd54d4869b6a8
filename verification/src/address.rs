//! Network addresses.

use vstd::prelude::*;

verus! {

/// The address of one socket: a network segment, a node on it, and a port on
/// that node.
///
/// Three values of `port_id` are set apart: `0` asks for *any* socket that
/// matches the key of the frame, `255` asks for *all* of them, everything else
/// names one socket.
#[derive(Clone, Copy, Debug, PartialEq, Eq, Structural)]
pub struct Address {
    pub network_id: u16,
    pub node_id: u8,
    pub port_id: u8,
}

impl Address {
    /// The address as one 32-bit number: network, node and port, from the most
    /// significant end.
    pub open spec fn word(self) -> nat {
        (self.network_id * 65536 + self.node_id * 256 + self.port_id) as nat
    }

    /// The all-zero address: "this node, whoever it is".
    pub fn unknown() -> (r: Address)
        ensures
            r == (Address { network_id: 0, node_id: 0, port_id: 0 }),
    {
        Address { network_id: 0, node_id: 0, port_id: 0 }
    }

    /// The 32-bit form used on the wire.
    pub fn as_u32(self) -> (r: u32)
        ensures
            r == self.word(),
    {
        (self.network_id as u32) * 65536 + (self.node_id as u32) * 256 + (self.port_id as u32)
    }

    /// The address with the given 32-bit form.
    pub fn from_word(word: u32) -> (r: Address)
        ensures
            r.word() == word,
    {
        Address {
            network_id: (word / 65536) as u16,
            node_id: (word / 256 % 256) as u8,
            port_id: (word % 256) as u8,
        }
    }

    /// Whether both the network and the node are left open, so that the frame
    /// stays on this node.
    pub fn net_node_any(self) -> (r: bool)
        ensures
            r == (self.network_id == 0 && self.node_id == 0),
    {
        self.network_id == 0 && self.node_id == 0
    }
}

/// Every address has a 32-bit form of its own.
pub proof fn word_injective(a: Address, b: Address)
    requires
        a.word() == b.word(),
    ensures
        a == b,
{
}

} // verus!
