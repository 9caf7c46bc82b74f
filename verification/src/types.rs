//! Small enumerations shared across the SDK: message priorities, channel
//! kinds, encryption algorithm labels, and the coarse client connection
//! state.

use vstd::prelude::*;
use vstd::string::StringExecFns;

verus! {

/// Message priority levels, ordered by urgency.
#[derive(Debug, Clone, Copy, PartialEq, Eq, Structural, Hash)]
pub enum MessagePriority {
    Critical,
    High,
    Normal,
    Low,
    Bulk,
}

impl MessagePriority {
    /// The numeric weight carried on the wire for each priority.
    pub open spec fn spec_value(self) -> u8 {
        match self {
            MessagePriority::Critical => 100,
            MessagePriority::High => 75,
            MessagePriority::Normal => 50,
            MessagePriority::Low => 25,
            MessagePriority::Bulk => 0,
        }
    }

    /// The priority a numeric weight decodes to; anything unknown is `Bulk`.
    pub open spec fn spec_from_value(value: u8) -> MessagePriority {
        if value == 100 {
            MessagePriority::Critical
        } else if value == 75 {
            MessagePriority::High
        } else if value == 50 {
            MessagePriority::Normal
        } else if value == 25 {
            MessagePriority::Low
        } else {
            MessagePriority::Bulk
        }
    }

    pub fn critical() -> (r: Self)
        ensures
            r == MessagePriority::Critical,
    {
        MessagePriority::Critical
    }

    pub fn high() -> (r: Self)
        ensures
            r == MessagePriority::High,
    {
        MessagePriority::High
    }

    pub fn normal() -> (r: Self)
        ensures
            r == MessagePriority::Normal,
    {
        MessagePriority::Normal
    }

    pub fn low() -> (r: Self)
        ensures
            r == MessagePriority::Low,
    {
        MessagePriority::Low
    }

    pub fn bulk() -> (r: Self)
        ensures
            r == MessagePriority::Bulk,
    {
        MessagePriority::Bulk
    }

    pub fn value(&self) -> (r: u8)
        ensures
            r == self.spec_value(),
    {
        match self {
            MessagePriority::Critical => 100,
            MessagePriority::High => 75,
            MessagePriority::Normal => 50,
            MessagePriority::Low => 25,
            MessagePriority::Bulk => 0,
        }
    }

    pub fn from_value(value: u8) -> (r: Self)
        ensures
            r == MessagePriority::spec_from_value(value),
    {
        if value == 100 {
            MessagePriority::Critical
        } else if value == 75 {
            MessagePriority::High
        } else if value == 50 {
            MessagePriority::Normal
        } else if value == 25 {
            MessagePriority::Low
        } else {
            MessagePriority::Bulk
        }
    }
}

/// Round trip: encoding a priority and decoding the result gives the
/// priority back, for every variant.
pub proof fn lemma_priority_value_round_trip(p: MessagePriority)
    ensures
        MessagePriority::spec_from_value(p.spec_value()) == p,
{
}

/// The kinds of channel the service offers.
#[derive(Debug, Clone, Copy, PartialEq, Eq, Structural, Hash)]
pub enum ChannelType {
    Public,
    Encrypted,
    Temporary,
}

impl ChannelType {
    /// The wire label of each channel kind.
    pub open spec fn spec_str(self) -> Seq<char> {
        match self {
            ChannelType::Public => "public"@,
            ChannelType::Encrypted => "encrypted"@,
            ChannelType::Temporary => "temporary"@,
        }
    }

    pub fn public() -> (r: Self)
        ensures
            r == ChannelType::Public,
    {
        ChannelType::Public
    }

    pub fn encrypted() -> (r: Self)
        ensures
            r == ChannelType::Encrypted,
    {
        ChannelType::Encrypted
    }

    pub fn temporary() -> (r: Self)
        ensures
            r == ChannelType::Temporary,
    {
        ChannelType::Temporary
    }

    pub fn as_str(&self) -> (r: String)
        ensures
            r@ == self.spec_str(),
    {
        match self {
            ChannelType::Public => String::from_str("public"),
            ChannelType::Encrypted => String::from_str("encrypted"),
            ChannelType::Temporary => String::from_str("temporary"),
        }
    }
}

/// Encryption algorithms a public key can be registered under.
#[derive(Debug, Clone, Copy, PartialEq, Eq, Structural, Hash)]
pub enum EncryptionAlgorithm {
    Rsa2048,
    Rsa4096,
    EccSecp256K1,
}

impl EncryptionAlgorithm {
    /// The wire label of each algorithm.
    pub open spec fn spec_str(self) -> Seq<char> {
        match self {
            EncryptionAlgorithm::Rsa2048 => "RSA-2048"@,
            EncryptionAlgorithm::Rsa4096 => "RSA-4096"@,
            EncryptionAlgorithm::EccSecp256K1 => "ECC-SECP256K1"@,
        }
    }

    pub fn rsa_2048() -> (r: Self)
        ensures
            r == EncryptionAlgorithm::Rsa2048,
    {
        EncryptionAlgorithm::Rsa2048
    }

    pub fn rsa_4096() -> (r: Self)
        ensures
            r == EncryptionAlgorithm::Rsa4096,
    {
        EncryptionAlgorithm::Rsa4096
    }

    pub fn ecc_secp256k1() -> (r: Self)
        ensures
            r == EncryptionAlgorithm::EccSecp256K1,
    {
        EncryptionAlgorithm::EccSecp256K1
    }

    pub fn as_str(&self) -> (r: String)
        ensures
            r@ == self.spec_str(),
    {
        match self {
            EncryptionAlgorithm::Rsa2048 => String::from_str("RSA-2048"),
            EncryptionAlgorithm::Rsa4096 => String::from_str("RSA-4096"),
            EncryptionAlgorithm::EccSecp256K1 => String::from_str("ECC-SECP256K1"),
        }
    }
}

/// Coarse connection state a client reports to its caller.
#[derive(Debug, Clone, Copy, PartialEq, Eq, Structural)]
pub enum ConnectionState {
    Disconnected,
    Connecting,
    Connected,
    Reconnecting,
}

impl ConnectionState {
    /// The label of each state.
    pub open spec fn spec_str(self) -> Seq<char> {
        match self {
            ConnectionState::Disconnected => "disconnected"@,
            ConnectionState::Connecting => "connecting"@,
            ConnectionState::Connected => "connected"@,
            ConnectionState::Reconnecting => "reconnecting"@,
        }
    }

    pub fn disconnected() -> (r: Self)
        ensures
            r == ConnectionState::Disconnected,
    {
        ConnectionState::Disconnected
    }

    pub fn connecting() -> (r: Self)
        ensures
            r == ConnectionState::Connecting,
    {
        ConnectionState::Connecting
    }

    pub fn connected() -> (r: Self)
        ensures
            r == ConnectionState::Connected,
    {
        ConnectionState::Connected
    }

    pub fn reconnecting() -> (r: Self)
        ensures
            r == ConnectionState::Reconnecting,
    {
        ConnectionState::Reconnecting
    }

    pub fn as_str(&self) -> (r: String)
        ensures
            r@ == self.spec_str(),
    {
        match self {
            ConnectionState::Disconnected => String::from_str("disconnected"),
            ConnectionState::Connecting => String::from_str("connecting"),
            ConnectionState::Connected => String::from_str("connected"),
            ConnectionState::Reconnecting => String::from_str("reconnecting"),
        }
    }
}

} // verus!
