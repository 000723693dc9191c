//! Protocol constants: versions, hash types, message types and the other
//! small enumerations that travel as integers on the wire.

use vstd::prelude::*;

verus! {

/// FDO protocol version. On the wire it is the integer given by `code`.
#[derive(Debug, Clone, Copy, PartialEq, Eq, Structural, PartialOrd)]
#[non_exhaustive]
pub enum ProtocolVersion {
    Version1_0,
    Version1_1,
    Version2_0,
}

impl ProtocolVersion {
    pub open spec fn spec_code(self) -> u16 {
        match self {
            ProtocolVersion::Version1_0 => 100,
            ProtocolVersion::Version1_1 => 101,
            ProtocolVersion::Version2_0 => 200,
        }
    }

    pub open spec fn spec_from_code(c: u16) -> Option<ProtocolVersion> {
        if c == 100 {
            Some(ProtocolVersion::Version1_0)
        } else if c == 101 {
            Some(ProtocolVersion::Version1_1)
        } else if c == 200 {
            Some(ProtocolVersion::Version2_0)
        } else {
            None
        }
    }

    /// The wire integer of this version.
    pub fn code(&self) -> (r: u16)
        ensures
            r == self.spec_code(),
    {
        match self {
            ProtocolVersion::Version1_0 => 100,
            ProtocolVersion::Version1_1 => 101,
            ProtocolVersion::Version2_0 => 200,
        }
    }

    /// The version whose wire integer is `c`, if any.
    pub fn from_code(c: u16) -> (r: Option<ProtocolVersion>)
        ensures
            r == ProtocolVersion::spec_from_code(c),
    {
        if c == 100 {
            Some(ProtocolVersion::Version1_0)
        } else if c == 101 {
            Some(ProtocolVersion::Version1_1)
        } else if c == 200 {
            Some(ProtocolVersion::Version2_0)
        } else {
            None
        }
    }
}

/// Decoding the wire integer of a version gives the version back, and a
/// wire integer that decodes is the integer of what it decodes to.
pub proof fn lemma_protocol_version_code_roundtrip(v: ProtocolVersion, c: u16)
    ensures
        ProtocolVersion::spec_from_code(v.spec_code()) == Some(v),
        ProtocolVersion::spec_from_code(c) matches Some(w) ==> w.spec_code() == c,
{
}

/// Hash and HMAC algorithms (COSE algorithm numbers on the wire).
#[derive(Debug, Clone, Copy, PartialEq, Eq, Structural)]
#[non_exhaustive]
pub enum HashType {
    Sha256,
    Sha384,
    HmacSha256,
    HmacSha384,
}

impl HashType {
    pub open spec fn spec_code(self) -> i8 {
        match self {
            HashType::Sha256 => -16i8,
            HashType::Sha384 => -43i8,
            HashType::HmacSha256 => 5,
            HashType::HmacSha384 => 6,
        }
    }

    pub open spec fn spec_from_code(c: i8) -> Option<HashType> {
        if c == -16i8 {
            Some(HashType::Sha256)
        } else if c == -43i8 {
            Some(HashType::Sha384)
        } else if c == 5 {
            Some(HashType::HmacSha256)
        } else if c == 6 {
            Some(HashType::HmacSha384)
        } else {
            None
        }
    }

    /// The wire integer of this value.
    pub fn code(&self) -> (r: i8)
        ensures
            r == self.spec_code(),
    {
        match self {
            HashType::Sha256 => -16i8,
            HashType::Sha384 => -43i8,
            HashType::HmacSha256 => 5,
            HashType::HmacSha384 => 6,
        }
    }

    /// The value whose wire integer is `c`, if any.
    pub fn from_code(c: i8) -> (r: Option<HashType>)
        ensures
            r == HashType::spec_from_code(c),
    {
        if c == -16i8 {
            Some(HashType::Sha256)
        } else if c == -43i8 {
            Some(HashType::Sha384)
        } else if c == 5 {
            Some(HashType::HmacSha256)
        } else if c == 6 {
            Some(HashType::HmacSha384)
        } else {
            None
        }
    }

    pub open spec fn spec_digest_size(self) -> usize {
        match self {
            HashType::Sha256 | HashType::HmacSha256 => 32,
            HashType::Sha384 | HashType::HmacSha384 => 48,
        }
    }

    /// Size in bytes of a digest of this type.
    pub fn digest_size(&self) -> (r: usize)
        ensures
            r == self.spec_digest_size(),
    {
        match self {
            HashType::Sha256 | HashType::HmacSha256 => 32,
            HashType::Sha384 | HashType::HmacSha384 => 48,
        }
    }

}

/// Decoding the wire integer of a hash type gives it back, and a wire
/// integer that decodes is the integer of what it decodes to.
pub proof fn lemma_hash_type_code_roundtrip(v: HashType, c: i8)
    ensures
        HashType::spec_from_code(v.spec_code()) == Some(v),
        HashType::spec_from_code(c) matches Some(w) ==> w.spec_code() == c,
{
}

/// Protocol message numbers.
#[derive(Debug, Clone, Copy, PartialEq, Eq, Structural)]
#[non_exhaustive]
pub enum MessageType {
    DIAppStart,
    DISetCredentials,
    DISetHMAC,
    DIDone,
    TO1HelloRV,
    TO1HelloRVAck,
    TO1ProveToRV,
    TO1RVRedirect,
    TO2HelloDeviceProbe,
    TO2HelloDeviceAck20,
    TO2ProveDevice20,
    TO2ProveOVHdr20,
    TO2GetOVNextEntry20,
    TO2OVNextEntry20,
    TO2DeviceSvcInfoRdy20,
    TO2SetupDevice20,
    TO2DeviceSvcInfo20,
    TO2OwnerSvcInfo20,
    TO2Done20,
    TO2DoneAck20,
    Error,
}

impl MessageType {
    pub open spec fn spec_code(self) -> u8 {
        match self {
            MessageType::DIAppStart => 10,
            MessageType::DISetCredentials => 11,
            MessageType::DISetHMAC => 12,
            MessageType::DIDone => 13,
            MessageType::TO1HelloRV => 30,
            MessageType::TO1HelloRVAck => 31,
            MessageType::TO1ProveToRV => 32,
            MessageType::TO1RVRedirect => 33,
            MessageType::TO2HelloDeviceProbe => 80,
            MessageType::TO2HelloDeviceAck20 => 81,
            MessageType::TO2ProveDevice20 => 82,
            MessageType::TO2ProveOVHdr20 => 83,
            MessageType::TO2GetOVNextEntry20 => 84,
            MessageType::TO2OVNextEntry20 => 85,
            MessageType::TO2DeviceSvcInfoRdy20 => 86,
            MessageType::TO2SetupDevice20 => 87,
            MessageType::TO2DeviceSvcInfo20 => 88,
            MessageType::TO2OwnerSvcInfo20 => 89,
            MessageType::TO2Done20 => 90,
            MessageType::TO2DoneAck20 => 91,
            MessageType::Error => 255,
        }
    }

    pub open spec fn spec_from_code(c: u8) -> Option<MessageType> {
        if c == 10 {
            Some(MessageType::DIAppStart)
        } else if c == 11 {
            Some(MessageType::DISetCredentials)
        } else if c == 12 {
            Some(MessageType::DISetHMAC)
        } else if c == 13 {
            Some(MessageType::DIDone)
        } else if c == 30 {
            Some(MessageType::TO1HelloRV)
        } else if c == 31 {
            Some(MessageType::TO1HelloRVAck)
        } else if c == 32 {
            Some(MessageType::TO1ProveToRV)
        } else if c == 33 {
            Some(MessageType::TO1RVRedirect)
        } else if c == 80 {
            Some(MessageType::TO2HelloDeviceProbe)
        } else if c == 81 {
            Some(MessageType::TO2HelloDeviceAck20)
        } else if c == 82 {
            Some(MessageType::TO2ProveDevice20)
        } else if c == 83 {
            Some(MessageType::TO2ProveOVHdr20)
        } else if c == 84 {
            Some(MessageType::TO2GetOVNextEntry20)
        } else if c == 85 {
            Some(MessageType::TO2OVNextEntry20)
        } else if c == 86 {
            Some(MessageType::TO2DeviceSvcInfoRdy20)
        } else if c == 87 {
            Some(MessageType::TO2SetupDevice20)
        } else if c == 88 {
            Some(MessageType::TO2DeviceSvcInfo20)
        } else if c == 89 {
            Some(MessageType::TO2OwnerSvcInfo20)
        } else if c == 90 {
            Some(MessageType::TO2Done20)
        } else if c == 91 {
            Some(MessageType::TO2DoneAck20)
        } else if c == 255 {
            Some(MessageType::Error)
        } else {
            None
        }
    }

    /// The wire integer of this value.
    pub fn code(&self) -> (r: u8)
        ensures
            r == self.spec_code(),
    {
        match self {
            MessageType::DIAppStart => 10,
            MessageType::DISetCredentials => 11,
            MessageType::DISetHMAC => 12,
            MessageType::DIDone => 13,
            MessageType::TO1HelloRV => 30,
            MessageType::TO1HelloRVAck => 31,
            MessageType::TO1ProveToRV => 32,
            MessageType::TO1RVRedirect => 33,
            MessageType::TO2HelloDeviceProbe => 80,
            MessageType::TO2HelloDeviceAck20 => 81,
            MessageType::TO2ProveDevice20 => 82,
            MessageType::TO2ProveOVHdr20 => 83,
            MessageType::TO2GetOVNextEntry20 => 84,
            MessageType::TO2OVNextEntry20 => 85,
            MessageType::TO2DeviceSvcInfoRdy20 => 86,
            MessageType::TO2SetupDevice20 => 87,
            MessageType::TO2DeviceSvcInfo20 => 88,
            MessageType::TO2OwnerSvcInfo20 => 89,
            MessageType::TO2Done20 => 90,
            MessageType::TO2DoneAck20 => 91,
            MessageType::Error => 255,
        }
    }

    /// The value whose wire integer is `c`, if any.
    pub fn from_code(c: u8) -> (r: Option<MessageType>)
        ensures
            r == MessageType::spec_from_code(c),
    {
        if c == 10 {
            Some(MessageType::DIAppStart)
        } else if c == 11 {
            Some(MessageType::DISetCredentials)
        } else if c == 12 {
            Some(MessageType::DISetHMAC)
        } else if c == 13 {
            Some(MessageType::DIDone)
        } else if c == 30 {
            Some(MessageType::TO1HelloRV)
        } else if c == 31 {
            Some(MessageType::TO1HelloRVAck)
        } else if c == 32 {
            Some(MessageType::TO1ProveToRV)
        } else if c == 33 {
            Some(MessageType::TO1RVRedirect)
        } else if c == 80 {
            Some(MessageType::TO2HelloDeviceProbe)
        } else if c == 81 {
            Some(MessageType::TO2HelloDeviceAck20)
        } else if c == 82 {
            Some(MessageType::TO2ProveDevice20)
        } else if c == 83 {
            Some(MessageType::TO2ProveOVHdr20)
        } else if c == 84 {
            Some(MessageType::TO2GetOVNextEntry20)
        } else if c == 85 {
            Some(MessageType::TO2OVNextEntry20)
        } else if c == 86 {
            Some(MessageType::TO2DeviceSvcInfoRdy20)
        } else if c == 87 {
            Some(MessageType::TO2SetupDevice20)
        } else if c == 88 {
            Some(MessageType::TO2DeviceSvcInfo20)
        } else if c == 89 {
            Some(MessageType::TO2OwnerSvcInfo20)
        } else if c == 90 {
            Some(MessageType::TO2Done20)
        } else if c == 91 {
            Some(MessageType::TO2DoneAck20)
        } else if c == 255 {
            Some(MessageType::Error)
        } else {
            None
        }
    }

}

/// Decoding the wire integer of a message type gives it back, and a wire
/// integer that decodes is the integer of what it decodes to.
pub proof fn lemma_message_type_code_roundtrip(v: MessageType, c: u8)
    ensures
        MessageType::spec_from_code(v.spec_code()) == Some(v),
        MessageType::spec_from_code(c) matches Some(w) ==> w.spec_code() == c,
{
}

/// Transport protocols a rendezvous or owner address may use.
#[derive(Debug, Clone, Copy, PartialEq, Eq, Structural)]
#[non_exhaustive]
pub enum TransportProtocol {
    Tcp,
    Tls,
    Http,
    CoAP,
    Https,
    CoAPS,
}

impl TransportProtocol {
    pub open spec fn spec_code(self) -> u8 {
        match self {
            TransportProtocol::Tcp => 1,
            TransportProtocol::Tls => 2,
            TransportProtocol::Http => 3,
            TransportProtocol::CoAP => 4,
            TransportProtocol::Https => 5,
            TransportProtocol::CoAPS => 6,
        }
    }

    pub open spec fn spec_from_code(c: u8) -> Option<TransportProtocol> {
        if c == 1 {
            Some(TransportProtocol::Tcp)
        } else if c == 2 {
            Some(TransportProtocol::Tls)
        } else if c == 3 {
            Some(TransportProtocol::Http)
        } else if c == 4 {
            Some(TransportProtocol::CoAP)
        } else if c == 5 {
            Some(TransportProtocol::Https)
        } else if c == 6 {
            Some(TransportProtocol::CoAPS)
        } else {
            None
        }
    }

    /// The wire integer of this value.
    pub fn code(&self) -> (r: u8)
        ensures
            r == self.spec_code(),
    {
        match self {
            TransportProtocol::Tcp => 1,
            TransportProtocol::Tls => 2,
            TransportProtocol::Http => 3,
            TransportProtocol::CoAP => 4,
            TransportProtocol::Https => 5,
            TransportProtocol::CoAPS => 6,
        }
    }

    /// The value whose wire integer is `c`, if any.
    pub fn from_code(c: u8) -> (r: Option<TransportProtocol>)
        ensures
            r == TransportProtocol::spec_from_code(c),
    {
        if c == 1 {
            Some(TransportProtocol::Tcp)
        } else if c == 2 {
            Some(TransportProtocol::Tls)
        } else if c == 3 {
            Some(TransportProtocol::Http)
        } else if c == 4 {
            Some(TransportProtocol::CoAP)
        } else if c == 5 {
            Some(TransportProtocol::Https)
        } else if c == 6 {
            Some(TransportProtocol::CoAPS)
        } else {
            None
        }
    }

}

/// Decoding the wire integer of a transport protocol gives it back, and a wire
/// integer that decodes is the integer of what it decodes to.
pub proof fn lemma_transport_protocol_code_roundtrip(v: TransportProtocol, c: u8)
    ensures
        TransportProtocol::spec_from_code(v.spec_code()) == Some(v),
        TransportProtocol::spec_from_code(c) matches Some(w) ==> w.spec_code() == c,
{
}

/// Keys of rendezvous directives.
#[derive(Debug, Clone, Copy, PartialEq, Eq, Structural)]
#[non_exhaustive]
pub enum RendezvousVariable {
    DeviceOnly,
    OwnerOnly,
    IPAddress,
    DevicePort,
    OwnerPort,
    Dns,
    ServerCertHash,
    CaCertHash,
    UserInput,
    WifiSsid,
    WifiPw,
    Medium,
    Protocol,
    Delaysec,
    Bypass,
}

impl RendezvousVariable {
    pub open spec fn spec_code(self) -> u8 {
        match self {
            RendezvousVariable::DeviceOnly => 0,
            RendezvousVariable::OwnerOnly => 1,
            RendezvousVariable::IPAddress => 2,
            RendezvousVariable::DevicePort => 3,
            RendezvousVariable::OwnerPort => 4,
            RendezvousVariable::Dns => 5,
            RendezvousVariable::ServerCertHash => 6,
            RendezvousVariable::CaCertHash => 7,
            RendezvousVariable::UserInput => 8,
            RendezvousVariable::WifiSsid => 9,
            RendezvousVariable::WifiPw => 10,
            RendezvousVariable::Medium => 11,
            RendezvousVariable::Protocol => 12,
            RendezvousVariable::Delaysec => 13,
            RendezvousVariable::Bypass => 14,
        }
    }

    pub open spec fn spec_from_code(c: u8) -> Option<RendezvousVariable> {
        if c == 0 {
            Some(RendezvousVariable::DeviceOnly)
        } else if c == 1 {
            Some(RendezvousVariable::OwnerOnly)
        } else if c == 2 {
            Some(RendezvousVariable::IPAddress)
        } else if c == 3 {
            Some(RendezvousVariable::DevicePort)
        } else if c == 4 {
            Some(RendezvousVariable::OwnerPort)
        } else if c == 5 {
            Some(RendezvousVariable::Dns)
        } else if c == 6 {
            Some(RendezvousVariable::ServerCertHash)
        } else if c == 7 {
            Some(RendezvousVariable::CaCertHash)
        } else if c == 8 {
            Some(RendezvousVariable::UserInput)
        } else if c == 9 {
            Some(RendezvousVariable::WifiSsid)
        } else if c == 10 {
            Some(RendezvousVariable::WifiPw)
        } else if c == 11 {
            Some(RendezvousVariable::Medium)
        } else if c == 12 {
            Some(RendezvousVariable::Protocol)
        } else if c == 13 {
            Some(RendezvousVariable::Delaysec)
        } else if c == 14 {
            Some(RendezvousVariable::Bypass)
        } else {
            None
        }
    }

    /// The wire integer of this value.
    pub fn code(&self) -> (r: u8)
        ensures
            r == self.spec_code(),
    {
        match self {
            RendezvousVariable::DeviceOnly => 0,
            RendezvousVariable::OwnerOnly => 1,
            RendezvousVariable::IPAddress => 2,
            RendezvousVariable::DevicePort => 3,
            RendezvousVariable::OwnerPort => 4,
            RendezvousVariable::Dns => 5,
            RendezvousVariable::ServerCertHash => 6,
            RendezvousVariable::CaCertHash => 7,
            RendezvousVariable::UserInput => 8,
            RendezvousVariable::WifiSsid => 9,
            RendezvousVariable::WifiPw => 10,
            RendezvousVariable::Medium => 11,
            RendezvousVariable::Protocol => 12,
            RendezvousVariable::Delaysec => 13,
            RendezvousVariable::Bypass => 14,
        }
    }

    /// The value whose wire integer is `c`, if any.
    pub fn from_code(c: u8) -> (r: Option<RendezvousVariable>)
        ensures
            r == RendezvousVariable::spec_from_code(c),
    {
        if c == 0 {
            Some(RendezvousVariable::DeviceOnly)
        } else if c == 1 {
            Some(RendezvousVariable::OwnerOnly)
        } else if c == 2 {
            Some(RendezvousVariable::IPAddress)
        } else if c == 3 {
            Some(RendezvousVariable::DevicePort)
        } else if c == 4 {
            Some(RendezvousVariable::OwnerPort)
        } else if c == 5 {
            Some(RendezvousVariable::Dns)
        } else if c == 6 {
            Some(RendezvousVariable::ServerCertHash)
        } else if c == 7 {
            Some(RendezvousVariable::CaCertHash)
        } else if c == 8 {
            Some(RendezvousVariable::UserInput)
        } else if c == 9 {
            Some(RendezvousVariable::WifiSsid)
        } else if c == 10 {
            Some(RendezvousVariable::WifiPw)
        } else if c == 11 {
            Some(RendezvousVariable::Medium)
        } else if c == 12 {
            Some(RendezvousVariable::Protocol)
        } else if c == 13 {
            Some(RendezvousVariable::Delaysec)
        } else if c == 14 {
            Some(RendezvousVariable::Bypass)
        } else {
            None
        }
    }

}

/// Decoding the wire integer of a rendezvous variable gives it back, and a wire
/// integer that decodes is the integer of what it decodes to.
pub proof fn lemma_rendezvous_variable_code_roundtrip(v: RendezvousVariable, c: u8)
    ensures
        RendezvousVariable::spec_from_code(v.spec_code()) == Some(v),
        RendezvousVariable::spec_from_code(c) matches Some(w) ==> w.spec_code() == c,
{
}

/// Device signature types (COSE algorithm numbers).
#[derive(Debug, Clone, Copy, PartialEq, Eq, Structural)]
#[non_exhaustive]
pub enum DeviceSigType {
    ES256,
    ES384,
    RS256,
    RS384,
}

impl DeviceSigType {
    pub open spec fn spec_code(self) -> i16 {
        match self {
            DeviceSigType::ES256 => -7i16,
            DeviceSigType::ES384 => -35i16,
            DeviceSigType::RS256 => -257i16,
            DeviceSigType::RS384 => -258i16,
        }
    }

    pub open spec fn spec_from_code(c: i16) -> Option<DeviceSigType> {
        if c == -7i16 {
            Some(DeviceSigType::ES256)
        } else if c == -35i16 {
            Some(DeviceSigType::ES384)
        } else if c == -257i16 {
            Some(DeviceSigType::RS256)
        } else if c == -258i16 {
            Some(DeviceSigType::RS384)
        } else {
            None
        }
    }

    /// The wire integer of this value.
    pub fn code(&self) -> (r: i16)
        ensures
            r == self.spec_code(),
    {
        match self {
            DeviceSigType::ES256 => -7i16,
            DeviceSigType::ES384 => -35i16,
            DeviceSigType::RS256 => -257i16,
            DeviceSigType::RS384 => -258i16,
        }
    }

    /// The value whose wire integer is `c`, if any.
    pub fn from_code(c: i16) -> (r: Option<DeviceSigType>)
        ensures
            r == DeviceSigType::spec_from_code(c),
    {
        if c == -7i16 {
            Some(DeviceSigType::ES256)
        } else if c == -35i16 {
            Some(DeviceSigType::ES384)
        } else if c == -257i16 {
            Some(DeviceSigType::RS256)
        } else if c == -258i16 {
            Some(DeviceSigType::RS384)
        } else {
            None
        }
    }

}

/// Decoding the wire integer of a device sig type gives it back, and a wire
/// integer that decodes is the integer of what it decodes to.
pub proof fn lemma_device_sig_type_code_roundtrip(v: DeviceSigType, c: i16)
    ensures
        DeviceSigType::spec_from_code(v.spec_code()) == Some(v),
        DeviceSigType::spec_from_code(c) matches Some(w) ==> w.spec_code() == c,
{
}

/// Types of public keys (the FDO `pkType` numbers).
#[derive(Debug, Clone, Copy, PartialEq, Eq, Structural)]
#[non_exhaustive]
pub enum PublicKeyType {
    Rsa2048Restr,
    RsaPkcs,
    RsaPss,
    SECP256R1,
    SECP384R1,
}

impl PublicKeyType {
    pub open spec fn spec_code(self) -> u8 {
        match self {
            PublicKeyType::Rsa2048Restr => 1,
            PublicKeyType::RsaPkcs => 5,
            PublicKeyType::RsaPss => 6,
            PublicKeyType::SECP256R1 => 10,
            PublicKeyType::SECP384R1 => 11,
        }
    }

    pub open spec fn spec_from_code(c: u8) -> Option<PublicKeyType> {
        if c == 1 {
            Some(PublicKeyType::Rsa2048Restr)
        } else if c == 5 {
            Some(PublicKeyType::RsaPkcs)
        } else if c == 6 {
            Some(PublicKeyType::RsaPss)
        } else if c == 10 {
            Some(PublicKeyType::SECP256R1)
        } else if c == 11 {
            Some(PublicKeyType::SECP384R1)
        } else {
            None
        }
    }

    /// The wire integer of this value.
    pub fn code(&self) -> (r: u8)
        ensures
            r == self.spec_code(),
    {
        match self {
            PublicKeyType::Rsa2048Restr => 1,
            PublicKeyType::RsaPkcs => 5,
            PublicKeyType::RsaPss => 6,
            PublicKeyType::SECP256R1 => 10,
            PublicKeyType::SECP384R1 => 11,
        }
    }

    /// The value whose wire integer is `c`, if any.
    pub fn from_code(c: u8) -> (r: Option<PublicKeyType>)
        ensures
            r == PublicKeyType::spec_from_code(c),
    {
        if c == 1 {
            Some(PublicKeyType::Rsa2048Restr)
        } else if c == 5 {
            Some(PublicKeyType::RsaPkcs)
        } else if c == 6 {
            Some(PublicKeyType::RsaPss)
        } else if c == 10 {
            Some(PublicKeyType::SECP256R1)
        } else if c == 11 {
            Some(PublicKeyType::SECP384R1)
        } else {
            None
        }
    }
}

/// Decoding the wire integer of a public key type gives it back, and a
/// wire integer that decodes is the integer of what it decodes to.
pub proof fn lemma_public_key_type_code_roundtrip(v: PublicKeyType, c: u8)
    ensures
        PublicKeyType::spec_from_code(v.spec_code()) == Some(v),
        PublicKeyType::spec_from_code(c) matches Some(w) ==> w.spec_code() == c,
{
}

/// Encodings of public keys (the FDO `pkEnc` numbers).
#[derive(Debug, Clone, Copy, PartialEq, Eq, Structural)]
#[non_exhaustive]
pub enum PublicKeyEncoding {
    Crypto,
    X509,
    CoseX509,
    CoseKey,
}

impl PublicKeyEncoding {
    pub open spec fn spec_code(self) -> u8 {
        match self {
            PublicKeyEncoding::Crypto => 0,
            PublicKeyEncoding::X509 => 1,
            PublicKeyEncoding::CoseX509 => 2,
            PublicKeyEncoding::CoseKey => 3,
        }
    }

    pub open spec fn spec_from_code(c: u8) -> Option<PublicKeyEncoding> {
        if c == 0 {
            Some(PublicKeyEncoding::Crypto)
        } else if c == 1 {
            Some(PublicKeyEncoding::X509)
        } else if c == 2 {
            Some(PublicKeyEncoding::CoseX509)
        } else if c == 3 {
            Some(PublicKeyEncoding::CoseKey)
        } else {
            None
        }
    }

    /// The wire integer of this value.
    pub fn code(&self) -> (r: u8)
        ensures
            r == self.spec_code(),
    {
        match self {
            PublicKeyEncoding::Crypto => 0,
            PublicKeyEncoding::X509 => 1,
            PublicKeyEncoding::CoseX509 => 2,
            PublicKeyEncoding::CoseKey => 3,
        }
    }

    /// The value whose wire integer is `c`, if any.
    pub fn from_code(c: u8) -> (r: Option<PublicKeyEncoding>)
        ensures
            r == PublicKeyEncoding::spec_from_code(c),
    {
        if c == 0 {
            Some(PublicKeyEncoding::Crypto)
        } else if c == 1 {
            Some(PublicKeyEncoding::X509)
        } else if c == 2 {
            Some(PublicKeyEncoding::CoseX509)
        } else if c == 3 {
            Some(PublicKeyEncoding::CoseKey)
        } else {
            None
        }
    }
}

/// Decoding the wire integer of a public key encoding gives it back, and a
/// wire integer that decodes is the integer of what it decodes to.
pub proof fn lemma_public_key_encoding_code_roundtrip(v: PublicKeyEncoding, c: u8)
    ensures
        PublicKeyEncoding::spec_from_code(v.spec_code()) == Some(v),
        PublicKeyEncoding::spec_from_code(c) matches Some(w) ==> w.spec_code() == c,
{
}

} // verus!
