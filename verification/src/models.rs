//! Networks and address scopes.
use crate::sapling::is_lower_case;
use vstd::prelude::*;
use vstd::string::*;
use vstd::utf8::is_ascii_chars_encode_utf8;

verus! {

/// The network that a wallet belongs to.
#[derive(Debug, Clone, Copy, PartialEq, Eq, Structural)]
pub enum ZeckNetwork {
    Mainnet,
    Testnet,
}

impl ZeckNetwork {
    /// The coin type that SLIP 44 registers for the network.
    pub open spec fn spec_coin_type(self) -> u32 {
        match self {
            ZeckNetwork::Mainnet => 133,
            ZeckNetwork::Testnet => 1,
        }
    }

    /// The coin type that SLIP 44 registers for the network.
    #[verifier::when_used_as_spec(spec_coin_type)]
    pub fn coin_type(self) -> (coin_type: u32)
        ensures
            coin_type == self.spec_coin_type(),
    {
        match self {
            ZeckNetwork::Mainnet => 133,
            ZeckNetwork::Testnet => 1,
        }
    }

    /// The address encoding of the network itself.
    pub open spec fn spec_consensus_network(self) -> ConsensusNetwork {
        match self {
            ZeckNetwork::Mainnet => ConsensusNetwork::Main,
            ZeckNetwork::Testnet => ConsensusNetwork::Test,
        }
    }

    /// The address encoding of the network itself.
    #[verifier::when_used_as_spec(spec_consensus_network)]
    pub fn consensus_network(self) -> (params: ConsensusNetwork)
        ensures
            params == self.spec_consensus_network(),
    {
        match self {
            ZeckNetwork::Mainnet => ConsensusNetwork::Main,
            ZeckNetwork::Testnet => ConsensusNetwork::Test,
        }
    }

    /// The address encoding in force: the one that a program has installed, such as
    /// that of its private chain, and otherwise that of the network itself.
    pub open spec fn spec_encoding_in_force(
        self,
        installed: Option<ConsensusNetwork>,
    ) -> ConsensusNetwork {
        match installed {
            Some(params) => params,
            None => self.consensus_network(),
        }
    }

    /// The address encoding in force: the one that a program has installed, such as
    /// that of its private chain, and otherwise that of the network itself.
    #[verifier::when_used_as_spec(spec_encoding_in_force)]
    pub fn encoding_in_force(self, installed: Option<ConsensusNetwork>) -> (params:
        ConsensusNetwork)
        ensures
            params == self.spec_encoding_in_force(installed),
    {
        match installed {
            Some(params) => params,
            None => self.consensus_network(),
        }
    }
}

/// The chain whose address encoding is in force. A private regtest chain shares
/// its coin type with testnet but not its address prefixes.
#[derive(Debug, Clone, Copy, PartialEq, Eq, Structural)]
pub enum ConsensusNetwork {
    Main,
    Test,
    Regtest,
}

impl ConsensusNetwork {
    /// The human-readable prefix of a Sapling payment address on the chain.
    pub open spec fn sapling_prefix(self) -> Seq<char> {
        match self {
            ConsensusNetwork::Main => "zs"@,
            ConsensusNetwork::Test => "ztestsapling"@,
            ConsensusNetwork::Regtest => "zregtestsapling"@,
        }
    }

    /// The human-readable prefix of a Sapling payment address on the chain.
    pub fn hrp_sapling_payment_address(self) -> (prefix: &'static str)
        ensures
            prefix@ == self.sapling_prefix(),
            prefix.spec_bytes().len() <= 83,
            is_lower_case(prefix@),
    {
        proof {
            reveal_strlit("zs");
            reveal_strlit("ztestsapling");
            reveal_strlit("zregtestsapling");
            is_ascii_chars_encode_utf8(self.sapling_prefix());
        }
        match self {
            ConsensusNetwork::Main => "zs",
            ConsensusNetwork::Test => "ztestsapling",
            ConsensusNetwork::Regtest => "zregtestsapling",
        }
    }
}

/// The branch of a transparent account that an address stands on.
#[derive(Debug, Clone, Copy, PartialEq, Eq, Structural)]
pub enum AddressScope {
    /// Addresses handed out to receive payments.
    External,
    /// Change addresses.
    Internal,
}

impl AddressScope {
    /// The BIP 44 `change` level of the branch.
    pub open spec fn spec_change_level(self) -> u32 {
        match self {
            AddressScope::External => 0,
            AddressScope::Internal => 1,
        }
    }

    /// The BIP 44 `change` level of the branch.
    #[verifier::when_used_as_spec(spec_change_level)]
    pub fn change_level(self) -> (level: u32)
        ensures
            level == self.spec_change_level(),
    {
        match self {
            AddressScope::External => 0,
            AddressScope::Internal => 1,
        }
    }
}

} // verus!
