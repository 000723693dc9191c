//! The FDO 2.0 messages as the firmware (UEFI) profile lays them out: plain
//! structures with public fields.

use vstd::prelude::*;

use crate::constants::MessageType;
use crate::types::{
    COSESign, CapabilityFlags, CipherSuite, Guid, HMac, KexSuite, Nonce, RendezvousInfo, ServiceInfo,
    SigInfo,
};

verus! {

/// TO1.HelloRV (type 30): the device starts TO1.
#[derive(Debug)]
pub struct TO1HelloRV {
    pub guid: Guid,
    pub a_signature_info: SigInfo,
    pub capability_flags: Vec<u8>,
}

impl TO1HelloRV {
    /// A HelloRV for `guid`; of the capability flags only their bytes are
    /// kept.
    pub fn new(guid: Guid, sig_info: SigInfo, capability_flags: CapabilityFlags) -> (r: TO1HelloRV)
        ensures
            r.guid == guid,
            r.a_signature_info == sig_info,
            r.capability_flags@ == capability_flags.flags@,
    {
        TO1HelloRV { guid, a_signature_info: sig_info, capability_flags: capability_flags.flags }
    }

    /// The message number.
    pub fn message_type() -> (r: MessageType)
        ensures
            r == MessageType::TO1HelloRV,
    {
        MessageType::TO1HelloRV
    }
}

/// TO1.HelloRVAck (type 31): the server acknowledges HelloRV.
#[derive(Debug)]
pub struct TO1HelloRVAck {
    pub nonce4: Nonce,
    pub b_signature_info: SigInfo,
    pub capability_flags: Vec<u8>,
}

impl TO1HelloRVAck {
    /// The message number.
    pub fn message_type() -> (r: MessageType)
        ensures
            r == MessageType::TO1HelloRVAck,
    {
        MessageType::TO1HelloRVAck
    }
}

/// TO1.ProveToRV (type 32): the device proves its identity.
#[derive(Debug)]
pub struct TO1ProveToRV(pub COSESign);

impl TO1ProveToRV {
    /// A proof carrying `token`.
    pub fn new(token: COSESign) -> (r: TO1ProveToRV)
        ensures
            r.0 == token,
    {
        TO1ProveToRV(token)
    }

    /// The message number.
    pub fn message_type() -> (r: MessageType)
        ensures
            r == MessageType::TO1ProveToRV,
    {
        MessageType::TO1ProveToRV
    }
}

/// TO1.RVRedirect (type 33): the server hands over the TO1d blob.
#[derive(Debug)]
pub struct TO1RVRedirect(pub COSESign);

impl TO1RVRedirect {
    /// A redirect carrying `to1d`.
    pub fn new(to1d: COSESign) -> (r: TO1RVRedirect)
        ensures
            r.0 == to1d,
    {
        TO1RVRedirect(to1d)
    }

    /// The blob, taking the message apart.
    pub fn into_to1d(self) -> (r: COSESign)
        ensures
            r == self.0,
    {
        self.0
    }

    /// The message number.
    pub fn message_type() -> (r: MessageType)
        ensures
            r == MessageType::TO1RVRedirect,
    {
        MessageType::TO1RVRedirect
    }
}

/// TO2.HelloDeviceProbe (type 80): the device starts TO2.
#[derive(Debug)]
pub struct TO2HelloDeviceProbe {
    pub capability_flags: CapabilityFlags,
    pub guid: Guid,
    pub max_device_message_size: u16,
    pub hash_types: Vec<i8>,
    pub sugar: Vec<u8>,
}

impl TO2HelloDeviceProbe {
    /// A probe for `guid`, announcing the largest message size.
    pub fn new(guid: Guid, capability_flags: CapabilityFlags, hash_types: Vec<i8>, sugar: Vec<
        u8,
    >) -> (r: TO2HelloDeviceProbe)
        ensures
            r.guid == guid,
            r.capability_flags == capability_flags,
            r.max_device_message_size == u16::MAX,
            r.hash_types@ == hash_types@,
            r.sugar@ == sugar@,
    {
        TO2HelloDeviceProbe {
            capability_flags,
            guid,
            max_device_message_size: u16::MAX,
            hash_types,
            sugar,
        }
    }

    /// The message number.
    pub fn message_type() -> (r: MessageType)
        ensures
            r == MessageType::TO2HelloDeviceProbe,
    {
        MessageType::TO2HelloDeviceProbe
    }
}

/// TO2.HelloDeviceAck20 (type 81): the owner acknowledges the probe.
#[derive(Debug)]
pub struct TO2HelloDeviceAck20 {
    pub capability_flags: CapabilityFlags,
    pub guid: Guid,
    pub max_owner_message_size: u16,
    pub kex_suites: Vec<KexSuite>,
    pub cipher_suites: Vec<CipherSuite>,
    pub nonce_to2_prove_dv_prep: Nonce,
    pub hash_prev: crate::types::Hash,
}

impl TO2HelloDeviceAck20 {
    /// The message number.
    pub fn message_type() -> (r: MessageType)
        ensures
            r == MessageType::TO2HelloDeviceAck20,
    {
        MessageType::TO2HelloDeviceAck20
    }
}

/// TO2.ProveDevice20 (type 82): the device proves itself.
#[derive(Debug)]
pub struct TO2ProveDevice20(pub COSESign);

impl TO2ProveDevice20 {
    /// A proof carrying `token`.
    pub fn new(token: COSESign) -> (r: TO2ProveDevice20)
        ensures
            r.0 == token,
    {
        TO2ProveDevice20(token)
    }

    /// The message number.
    pub fn message_type() -> (r: MessageType)
        ensures
            r == MessageType::TO2ProveDevice20,
    {
        MessageType::TO2ProveDevice20
    }
}

/// TO2.ProveOVHdr20 (type 83): the owner proves the voucher header.
#[derive(Debug)]
pub struct TO2ProveOVHdr20 {
    pub nonce_to2_prove_ov: Nonce,
    pub kex_suite_sel: KexSuite,
    pub cipher_suite_sel: CipherSuite,
    pub kex_a: Vec<u8>,
    pub num_ov_entries: u16,
    pub hmac: HMac,
    pub ov_header: Vec<u8>,
    pub delegate: Option<Vec<u8>>,
    pub cose_sign: COSESign,
}

impl TO2ProveOVHdr20 {
    /// The message number.
    pub fn message_type() -> (r: MessageType)
        ensures
            r == MessageType::TO2ProveOVHdr20,
    {
        MessageType::TO2ProveOVHdr20
    }
}

/// TO2.GetOVNextEntry20 (type 84): the device asks for a voucher entry.
#[derive(Debug)]
pub struct TO2GetOVNextEntry20 {
    pub entry_num: u16,
}

impl TO2GetOVNextEntry20 {
    /// A request for entry `entry_num`.
    pub fn new(entry_num: u16) -> (r: TO2GetOVNextEntry20)
        ensures
            r.entry_num == entry_num,
    {
        TO2GetOVNextEntry20 { entry_num }
    }

    /// The message number.
    pub fn message_type() -> (r: MessageType)
        ensures
            r == MessageType::TO2GetOVNextEntry20,
    {
        MessageType::TO2GetOVNextEntry20
    }
}

/// TO2.OVNextEntry20 (type 85): the owner sends a voucher entry.
#[derive(Debug)]
pub struct TO2OVNextEntry20 {
    pub entry_num: u16,
    pub ov_entry: Vec<u8>,
}

impl TO2OVNextEntry20 {
    /// The message number.
    pub fn message_type() -> (r: MessageType)
        ensures
            r == MessageType::TO2OVNextEntry20,
    {
        MessageType::TO2OVNextEntry20
    }
}

/// TO2.DeviceSvcInfoRdy20 (type 86): the device is ready for ServiceInfo.
#[derive(Debug)]
pub struct TO2DeviceSvcInfoRdy20 {
    pub max_svc_info_sz: u16,
    pub hmac: HMac,
}

impl TO2DeviceSvcInfoRdy20 {
    /// A ready message.
    pub fn new(max_svc_info_sz: u16, hmac: HMac) -> (r: TO2DeviceSvcInfoRdy20)
        ensures
            r.max_svc_info_sz == max_svc_info_sz,
            r.hmac == hmac,
    {
        TO2DeviceSvcInfoRdy20 { max_svc_info_sz, hmac }
    }

    /// The message number.
    pub fn message_type() -> (r: MessageType)
        ensures
            r == MessageType::TO2DeviceSvcInfoRdy20,
    {
        MessageType::TO2DeviceSvcInfoRdy20
    }
}

/// TO2.SetupDevice20 (type 87): the owner sets up the device.
#[derive(Debug)]
pub struct TO2SetupDevice20 {
    pub nonce_to2_setup_dv: Nonce,
    pub new_guid: Option<Guid>,
    pub rendezvous_info: RendezvousInfo,
}

impl TO2SetupDevice20 {
    /// The message number.
    pub fn message_type() -> (r: MessageType)
        ensures
            r == MessageType::TO2SetupDevice20,
    {
        MessageType::TO2SetupDevice20
    }
}

/// TO2.DeviceSvcInfo20 (type 88): the device sends ServiceInfo.
#[derive(Debug)]
pub struct TO2DeviceSvcInfo20 {
    pub is_more: bool,
    pub service_info: ServiceInfo,
}

impl TO2DeviceSvcInfo20 {
    /// A round carrying `service_info`.
    pub fn new(is_more: bool, service_info: ServiceInfo) -> (r: TO2DeviceSvcInfo20)
        ensures
            r.is_more == is_more,
            r.service_info == service_info,
    {
        TO2DeviceSvcInfo20 { is_more, service_info }
    }

    /// The message number.
    pub fn message_type() -> (r: MessageType)
        ensures
            r == MessageType::TO2DeviceSvcInfo20,
    {
        MessageType::TO2DeviceSvcInfo20
    }
}

/// TO2.OwnerSvcInfo20 (type 89): the owner sends ServiceInfo.
#[derive(Debug)]
pub struct TO2OwnerSvcInfo20 {
    pub is_more: bool,
    pub is_done: bool,
    pub service_info: ServiceInfo,
}

impl TO2OwnerSvcInfo20 {
    /// The message number.
    pub fn message_type() -> (r: MessageType)
        ensures
            r == MessageType::TO2OwnerSvcInfo20,
    {
        MessageType::TO2OwnerSvcInfo20
    }
}

/// TO2.Done20 (type 90): the device signals completion.
#[derive(Debug)]
pub struct TO2Done20 {
    pub nonce_to2_setup_dv: Nonce,
}

impl TO2Done20 {
    /// A done message echoing `nonce`.
    pub fn new(nonce: Nonce) -> (r: TO2Done20)
        ensures
            r.nonce_to2_setup_dv == nonce,
    {
        TO2Done20 { nonce_to2_setup_dv: nonce }
    }

    /// The message number.
    pub fn message_type() -> (r: MessageType)
        ensures
            r == MessageType::TO2Done20,
    {
        MessageType::TO2Done20
    }
}

/// TO2.DoneAck20 (type 91): the owner acknowledges completion.
#[derive(Debug)]
pub struct TO2DoneAck20 {
    pub nonce_to2_prove_ov: Nonce,
}

impl TO2DoneAck20 {
    /// The message number.
    pub fn message_type() -> (r: MessageType)
        ensures
            r == MessageType::TO2DoneAck20,
    {
        MessageType::TO2DoneAck20
    }
}

} // verus!
