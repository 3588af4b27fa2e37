use vstd::prelude::*;

verus! {

/// The ledger instance a transaction targets.
#[derive(Debug, Clone, Copy, PartialEq, Eq, Structural)]
pub enum Network {
    Mainnet,
    Testnet1,
    Testnet2,
    Custom(u8),
}

impl Network {
    /// The one-byte identifier of a network.
    pub open spec fn spec_id(self) -> u8 {
        match self {
            Network::Mainnet => 0,
            Network::Testnet1 => 1,
            Network::Testnet2 => 2,
            Network::Custom(id) => id,
        }
    }

    /// The network named by a one-byte identifier.
    pub open spec fn spec_from_id(id: u8) -> Network {
        if id == 0 {
            Network::Mainnet
        } else if id == 1 {
            Network::Testnet1
        } else if id == 2 {
            Network::Testnet2
        } else {
            Network::Custom(id)
        }
    }

    /// Returns the one-byte identifier of the network.
    pub fn id(&self) -> (r: u8)
        ensures
            r == self.spec_id(),
    {
        match self {
            Network::Mainnet => 0,
            Network::Testnet1 => 1,
            Network::Testnet2 => 2,
            Network::Custom(id) => *id,
        }
    }

    /// Returns the network named by `id`.
    pub fn from_id(id: u8) -> (r: Network)
        ensures
            r == Network::spec_from_id(id),
    {
        match id {
            0 => Network::Mainnet,
            1 => Network::Testnet1,
            2 => Network::Testnet2,
            id => Network::Custom(id),
        }
    }
}

} // verus!
