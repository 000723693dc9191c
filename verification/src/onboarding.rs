//! The device's decisions during onboarding: which message it sends next in
//! TO1 and TO2, what it checks in each answer, and when it gives up. The
//! network exchanges, the cryptography and the file system are left to the
//! caller, which performs the action each step returns and hands back what
//! came of it.

use vstd::prelude::*;

use crate::constants::{DeviceSigType, HashType, MessageType, ProtocolVersion, TransportProtocol};
use crate::messages::valid_previous_message;
use crate::messages::v20::to1::{HelloRV, HelloRVAck};
use crate::messages::v20::to2::{GetOVNextEntry20, HelloDeviceProbe};
use crate::text::{bytes_eq, concat, decimal, u128_to_decimal};
use crate::cose::{
    cose_signature_checks, cose_signature_checks_spki, delegate_chain_of, delegate_key,
    certs_readable, openssl_x509_spki, verify_cose_sign1, verify_cose_sign1_spki,
};
use crate::cose_aad::{aad_owner_sign, aad_prove_ov_hdr, domain_aad};
use crate::ownershipvoucher::{directive_view, voucher_owner, OwnershipVoucher, PublicKey};
use crate::cbor::{cbor_bytes, cbor_int, cbor_map_head};
use crate::cbor_write::{cbor_array, lemma_concat_push, write_bytes, write_head, write_int};
use crate::cbor_scan::{
    array_elements, bytes_of, is_null_item, parts_view, read_bytes, read_null, read_text, read_uint,
    split_array, uint_of,
};
use crate::ownershipvoucher::{hash_encoding, hash_pair_of, read_hash_pair, write_hash};
use crate::types::text_item;
use crate::types::{
    COSESign, CapabilityFlags, CipherSuite, Guid, KexSuite, Nonce, RendezvousDirective, SigInfo,
};
use crate::Error;

verus! {

// ------------------------------------------------------------------
// Error reports
// ------------------------------------------------------------------

/// The error codes the device reports to a server.
#[derive(Debug, Clone, Copy, PartialEq, Eq, Structural)]
pub enum ErrorCode {
    InvalidMessageError,
    InternalServerError,
}

impl ErrorCode {
    pub open spec fn spec_code(self) -> u16 {
        match self {
            ErrorCode::InvalidMessageError => 101,
            ErrorCode::InternalServerError => 500,
        }
    }

    /// The code's number on the wire.
    pub fn code(&self) -> (r: u16)
        ensures
            r == self.spec_code(),
    {
        match self {
            ErrorCode::InvalidMessageError => 101,
            ErrorCode::InternalServerError => 500,
        }
    }
}

/// An error met while talking to a server: the code and text reported to
/// it, and the message being handled.
#[derive(Debug)]
pub struct ErrorResult {
    pub e_code: ErrorCode,
    pub e_string: String,
    pub message: MessageType,
}

impl ErrorResult {
    pub fn new(e_code: ErrorCode, e_string: &str, message: MessageType) -> (r: ErrorResult)
        ensures
            r.e_code == e_code,
            r.e_string@ == e_string@,
            r.message == message,
    {
        ErrorResult { e_code, e_string: String::from_str(e_string), message }
    }
}

// ------------------------------------------------------------------
// TO1
// ------------------------------------------------------------------

/// The signature type the device signs with.
pub open spec fn device_sig_type() -> DeviceSigType {
    DeviceSigType::ES384
}

/// The HelloRV the device opens TO1 with: its GUID, the ES384 signature
/// type with no extra information, and the client's capability flags.
pub fn hello_rv_for(guid: Guid) -> (r: HelloRV)
    ensures
        r.guid == guid,
        r.a_signature_info.sig_type == device_sig_type().spec_code(),
        r.a_signature_info.info@.len() == 0,
        r.capability_flags@ == seq![2u8],
{
    let sig = SigInfo::new(-35i8, Vec::new());
    let flags = CapabilityFlags::new_v20_client();
    HelloRV::new(guid, sig, flags)
}

/// Check the rendezvous server's HelloRVAck: it must name the signature
/// type the device asked for. The nonce to sign comes back.
pub fn check_hello_rv_ack(ack: &HelloRVAck) -> (r: Result<Nonce, ErrorResult>)
    ensures
        r is Ok <==> ack.b_signature_info.sig_type == device_sig_type().spec_code(),
        r matches Ok(n) ==> n.0@ == ack.nonce4.0@,
        r matches Err(e) ==> e.e_code == ErrorCode::InvalidMessageError && e.message
            == MessageType::TO1HelloRVAck && e.e_string@ == "Unsupported sig type returned"@,
{
    if ack.b_signature_info.sig_type != -35i8 {
        return Err(
            ErrorResult::new(
                ErrorCode::InvalidMessageError,
                "Unsupported sig type returned",
                MessageType::TO1HelloRVAck,
            ),
        );
    }
    Ok(Nonce::new(crate::ownershipvoucher::copy_bytes(&ack.nonce4.0)))
}

// ------------------------------------------------------------------
// TO2
// ------------------------------------------------------------------

/// The hash types the device offers in HelloDeviceProbe: SHA-256, then
/// SHA-384.
pub open spec fn offered_hash_types() -> Seq<i8> {
    seq![HashType::Sha256.spec_code(), HashType::Sha384.spec_code()]
}

/// Where a TO2 run stands.
#[derive(Debug)]
pub enum To2State {
    /// HelloDeviceProbe sent.
    AwaitHelloAck,
    /// ProveDevice20 sent, echoing `nonce_prep`.
    AwaitProveOvHdr { nonce_prep: Nonce },
    /// GetOVNextEntry20 sent for entry `next` of `total`.
    AwaitEntry { nonce_prep: Nonce, next: u16, total: u16 },
    /// All entries received; the voucher is being checked.
    AwaitVoucherCheck { nonce_prep: Nonce },
    /// DeviceSvcInfoRdy20 sent.
    AwaitSetupDevice { nonce_prep: Nonce },
    /// The ServiceInfo rounds are under way.
    ServiceInfo { nonce_prep: Nonce, nonce_setup: Nonce },
    /// Done20 sent.
    AwaitDoneAck { nonce_prep: Nonce },
    /// The run completed.
    Finished,
    /// The run failed.
    Failed,
}

/// What came of the last action.
#[derive(Debug)]
pub enum To2Event {
    /// HelloDeviceAck20 arrived with this nonce.
    HelloAck { nonce_prep: Nonce },
    /// ProveOVHdr20 arrived: the nonce it echoes, the number of voucher
    /// entries, whether the header HMAC checked out against the device's
    /// secret, and whether the manufacturer key hash matched the device's.
    ProveOvHdr { nonce_echo: Nonce, num_entries: u16, hmac_valid: bool, pubkey_hash_valid: bool },
    /// OVNextEntry20 arrived, numbered `entry_num`.
    Entry { entry_num: u8 },
    /// The voucher chain, ProveOVHdr20's signature and TO1D's signature were
    /// checked, and the session keys derived: `valid` when all succeeded.
    VoucherChecked { valid: bool },
    /// SetupDevice20 arrived with this nonce.
    SetupDevice { nonce_setup: Nonce },
    /// The owner ended the ServiceInfo rounds.
    ServiceInfoDone,
    /// DoneAck20 arrived, echoing this nonce.
    DoneAck { nonce_echo: Nonce },
}

/// What the device does next.
#[derive(Debug)]
pub enum To2Action {
    /// Send ProveDevice20, echoing `nonce_prep`.
    SendProveDevice { nonce_prep: Nonce },
    /// Send GetOVNextEntry20 for this entry.
    RequestEntry(GetOVNextEntry20),
    /// Check the voucher and derive the session keys.
    CheckVoucher,
    /// Switch to the encrypted channel and send DeviceSvcInfoRdy20.
    SendSvcInfoRdy,
    /// Run the ServiceInfo rounds.
    RunServiceInfo,
    /// Mark onboarding performed, deactivate the credential and send
    /// Done20 with this nonce (and no replacement HMAC).
    SendDone { nonce_setup: Nonce },
    /// The run completed.
    Complete,
    /// The run failed.
    Fail(Error),
}

/// The message an action sends, if any.
pub open spec fn action_message(a: To2Action) -> Option<MessageType> {
    match a {
        To2Action::SendProveDevice { .. } => Some(MessageType::TO2ProveDevice20),
        To2Action::RequestEntry(_) => Some(MessageType::TO2GetOVNextEntry20),
        To2Action::SendSvcInfoRdy => Some(MessageType::TO2DeviceSvcInfoRdy20),
        To2Action::RunServiceInfo => Some(MessageType::TO2DeviceSvcInfo20),
        To2Action::SendDone { .. } => Some(MessageType::TO2Done20),
        _ => None,
    }
}

/// The message received last when an event is handed in: the one it
/// reports, or, for the voucher check, the last voucher entry.
pub open spec fn received_before(e: To2Event) -> MessageType {
    match e {
        To2Event::HelloAck { .. } => MessageType::TO2HelloDeviceAck20,
        To2Event::ProveOvHdr { .. } => MessageType::TO2ProveOVHdr20,
        To2Event::Entry { .. } => MessageType::TO2OVNextEntry20,
        To2Event::VoucherChecked { .. } => MessageType::TO2OVNextEntry20,
        To2Event::SetupDevice { .. } => MessageType::TO2SetupDevice20,
        To2Event::ServiceInfoDone => MessageType::TO2OwnerSvcInfo20,
        To2Event::DoneAck { .. } => MessageType::TO2DoneAck20,
    }
}

fn copy_nonce(n: &Nonce) -> (r: Nonce)
    ensures
        r.0@ == n.0@,
{
    Nonce(crate::ownershipvoucher::copy_bytes(&n.0))
}

fn fail(msg: &str) -> (r: (To2State, To2Action))
    ensures
        r.0 is Failed,
        r.1 matches To2Action::Fail(e) && e.0@ == msg@,
{
    (To2State::Failed, To2Action::Fail(Error::new(msg)))
}

/// The HelloDeviceProbe that opens TO2: the device GUID, the client's
/// capability flags, the hash types the device offers and the random
/// `sugar`. The run then waits for HelloDeviceAck20.
pub fn to2_start(guid: Guid, sugar: Vec<u8>) -> (r: (To2State, HelloDeviceProbe))
    ensures
        r.0 is AwaitHelloAck,
        r.1.guid == guid,
        r.1.capability_flags.flags@ == seq![2u8],
        r.1.hash_types@ == offered_hash_types(),
        r.1.sugar@ == sugar@,
{
    let mut hash_types: Vec<i8> = Vec::new();
    hash_types.push(HashType::Sha256.code());
    hash_types.push(HashType::Sha384.code());
    let probe = HelloDeviceProbe::new(guid, CapabilityFlags::new_v20_client(), hash_types, sugar);
    assert(probe.hash_types@ =~= offered_hash_types());
    (To2State::AwaitHelloAck, probe)
}

/// The transition the device makes in TO2 from `state` on `event`, to
/// `next` with `action`: the nonce of HelloDeviceAck20 is echoed and must
/// come back in ProveOVHdr20 and DoneAck20; the header HMAC and the
/// manufacturer key hash must check out and the voucher have entries;
/// entries are asked for in order, each answer numbered as asked; the
/// voucher check must succeed. Anything else fails the run.
pub open spec fn to2_transition(state: To2State, event: To2Event, next: To2State, action: To2Action) -> bool {
    match (state, event) {
        (To2State::AwaitHelloAck, To2Event::HelloAck { nonce_prep }) => match (next, action) {
            (
                To2State::AwaitProveOvHdr { nonce_prep: m },
                To2Action::SendProveDevice { nonce_prep: n },
            ) => m.0@ == nonce_prep.0@ && n.0@ == nonce_prep.0@,
            _ => false,
        },
        (
            To2State::AwaitProveOvHdr { nonce_prep },
            To2Event::ProveOvHdr { nonce_echo, num_entries, hmac_valid, pubkey_hash_valid },
        ) => if nonce_echo.0@ == nonce_prep.0@ && hmac_valid && pubkey_hash_valid && num_entries > 0 {
            match (next, action) {
                (
                    To2State::AwaitEntry { nonce_prep: m, next: k, total },
                    To2Action::RequestEntry(g),
                ) => m.0@ == nonce_prep.0@ && k == 0 && total == num_entries && g.entry_num == 0,
                _ => false,
            }
        } else {
            action is Fail
        },
        (To2State::AwaitEntry { nonce_prep, next: k, total }, To2Event::Entry { entry_num }) => if entry_num
            as u16 != k {
            action is Fail
        } else if k + 1 < total {
            match (next, action) {
                (
                    To2State::AwaitEntry { nonce_prep: m, next: k2, total: t2 },
                    To2Action::RequestEntry(g),
                ) => m.0@ == nonce_prep.0@ && k2 == k + 1 && t2 == total && g.entry_num == (k
                    + 1) as u8,
                _ => false,
            }
        } else {
            match (next, action) {
                (To2State::AwaitVoucherCheck { nonce_prep: m }, To2Action::CheckVoucher) => m.0@
                    == nonce_prep.0@,
                _ => false,
            }
        },
        (To2State::AwaitVoucherCheck { nonce_prep }, To2Event::VoucherChecked { valid }) => if valid {
            match (next, action) {
                (To2State::AwaitSetupDevice { nonce_prep: m }, To2Action::SendSvcInfoRdy) => m.0@
                    == nonce_prep.0@,
                _ => false,
            }
        } else {
            action is Fail
        },
        (To2State::AwaitSetupDevice { nonce_prep }, To2Event::SetupDevice { nonce_setup }) => match (
            next,
            action,
        ) {
            (To2State::ServiceInfo { nonce_prep: m, nonce_setup: s }, To2Action::RunServiceInfo) => m.0@
                == nonce_prep.0@ && s.0@ == nonce_setup.0@,
            _ => false,
        },
        (To2State::ServiceInfo { nonce_prep, nonce_setup }, To2Event::ServiceInfoDone) => match (
            next,
            action,
        ) {
            (To2State::AwaitDoneAck { nonce_prep: m }, To2Action::SendDone { nonce_setup: s }) => m.0@
                == nonce_prep.0@ && s.0@ == nonce_setup.0@,
            _ => false,
        },
        (To2State::AwaitDoneAck { nonce_prep }, To2Event::DoneAck { nonce_echo }) => if nonce_echo.0@
            == nonce_prep.0@ {
            action is Complete
        } else {
            action is Fail
        },
        _ => action is Fail,
    }
}

/// ProveOVHdr20 moves the run on only when it echoes the device's nonce,
/// its voucher header HMAC checks out against the device's secret, the
/// manufacturer key hash matches and the voucher has entries; then the
/// first entry is asked for. Any of these failing fails the run.
pub proof fn lemma_prove_ov_hdr_checks(
    nonce_prep: Nonce,
    nonce_echo: Nonce,
    num_entries: u16,
    hmac_valid: bool,
    pubkey_hash_valid: bool,
    next: To2State,
    action: To2Action,
)
    requires
        to2_transition(
            To2State::AwaitProveOvHdr { nonce_prep },
            To2Event::ProveOvHdr { nonce_echo, num_entries, hmac_valid, pubkey_hash_valid },
            next,
            action,
        ),
    ensures
        !hmac_valid ==> action is Fail,
        !pubkey_hash_valid ==> action is Fail,
        nonce_echo.0@ != nonce_prep.0@ ==> action is Fail,
        num_entries == 0 ==> action is Fail,
        !(action is Fail) ==> (hmac_valid && pubkey_hash_valid && nonce_echo.0@ == nonce_prep.0@ && num_entries
            > 0),
        !(action is Fail) ==> (action matches To2Action::RequestEntry(g) && g.entry_num == 0),
        !(action is Fail) ==> (next matches To2State::AwaitEntry { next: k, total, .. } && k == 0 && total
            == num_entries),
{
}

/// One step of TO2: from the state and what came of the last action, the
/// next state and action. Every message the device sends may follow,
/// by the protocol's sequencing, the one received just before.
pub fn to2_step(state: To2State, event: To2Event) -> (r: (To2State, To2Action))
    ensures
        to2_transition(state, event, r.0, r.1),
        action_message(r.1) matches Some(t) ==> valid_previous_message(t, Some(received_before(event))),
        r.1 is Fail <==> r.0 is Failed,
        r.1 is Complete <==> r.0 is Finished,
{
    proof {
        reveal_strlit("Unexpected message");
    }
    match (state, event) {
        (To2State::AwaitHelloAck, To2Event::HelloAck { nonce_prep }) => {
            let echo = copy_nonce(&nonce_prep);
            (To2State::AwaitProveOvHdr { nonce_prep }, To2Action::SendProveDevice { nonce_prep: echo })
        },
        (
            To2State::AwaitProveOvHdr { nonce_prep },
            To2Event::ProveOvHdr { nonce_echo, num_entries, hmac_valid, pubkey_hash_valid },
        ) => {
            if !bytes_eq(nonce_prep.0.as_slice(), nonce_echo.0.as_slice()) {
                return fail("Nonce mismatch in ProveOVHdr20");
            }
            if !hmac_valid {
                return fail("Error verifying OV header HMAC");
            }
            if !pubkey_hash_valid {
                return fail("Manufacturer public key hash mismatch");
            }
            if num_entries == 0 {
                return fail("No OV entries found");
            }
            (
                To2State::AwaitEntry { nonce_prep, next: 0, total: num_entries },
                To2Action::RequestEntry(GetOVNextEntry20::new(0)),
            )
        },
        (To2State::AwaitEntry { nonce_prep, next, total }, To2Event::Entry { entry_num }) => {
            if entry_num as u16 != next {
                return fail("Owner returned a different OV entry than asked for");
            }
            if next + 1 < total {
                let n2: u16 = next + 1;
                (
                    To2State::AwaitEntry { nonce_prep, next: n2, total },
                    To2Action::RequestEntry(GetOVNextEntry20::new(n2 as u8)),
                )
            } else {
                (To2State::AwaitVoucherCheck { nonce_prep }, To2Action::CheckVoucher)
            }
        },
        (To2State::AwaitVoucherCheck { nonce_prep }, To2Event::VoucherChecked { valid }) => {
            if !valid {
                return fail("Error validating ownership voucher");
            }
            (To2State::AwaitSetupDevice { nonce_prep }, To2Action::SendSvcInfoRdy)
        },
        (To2State::AwaitSetupDevice { nonce_prep }, To2Event::SetupDevice { nonce_setup }) => {
            (To2State::ServiceInfo { nonce_prep, nonce_setup }, To2Action::RunServiceInfo)
        },
        (To2State::ServiceInfo { nonce_prep, nonce_setup }, To2Event::ServiceInfoDone) => {
            (To2State::AwaitDoneAck { nonce_prep }, To2Action::SendDone { nonce_setup })
        },
        (To2State::AwaitDoneAck { nonce_prep }, To2Event::DoneAck { nonce_echo }) => {
            if !bytes_eq(nonce_prep.0.as_slice(), nonce_echo.0.as_slice()) {
                return fail("Nonce mismatch in DoneAck20");
            }
            (To2State::Finished, To2Action::Complete)
        },
        _ => fail("Unexpected message"),
    }
}


/// The key ProveOVHdr20 must be signed with: the first certificate's key
/// when its unprotected header names a non-empty delegate chain, else the
/// owner's.
pub open spec fn prove_ov_hdr_signed(hdr: Seq<u8>, owner: Seq<u8>) -> bool {
    let aad = domain_aad("FDO-TO2-ProveOVHdr-v1"@);
    match delegate_chain_of(hdr) {
        Some(Some(certs)) => if certs.len() > 0 {
            certs_readable(certs) && cose_signature_checks_spki(hdr, openssl_x509_spki(certs[0]).unwrap(), aad)
        } else {
            cose_signature_checks(hdr, owner, aad)
        },
        Some(None) => cose_signature_checks(hdr, owner, aad),
        None => false,
    }
}

/// What the device checks of the owner in TO2 once the voucher is
/// complete: the voucher's entry chain, from the manufacturer's key; that
/// ProveOVHdr20 is signed by the owner's key (the one the last entry
/// names), or by the first certificate of the delegate chain its header
/// carries; and that the TO1D blob is signed by the owner's key; each
/// signature with its context's AAD. The owner's key comes back.
pub fn check_owner(ov: &OwnershipVoucher, prove_ov_hdr: &COSESign, to1d: &COSESign) -> (r: Result<
    PublicKey,
    Error,
>)
    ensures
        r matches Ok(k) ==> {
            &&& ov.entries@.len() > 0
            &&& voucher_owner(*ov) == Some(k.encoded@)
            &&& prove_ov_hdr_signed(prove_ov_hdr.0@, k.encoded@)
            &&& cose_signature_checks(to1d.0@, k.encoded@, domain_aad("FDO-TO0-OwnerSign-v1"@))
        },
        (ov.entries@.len() == 0 || voucher_owner(*ov) is None || delegate_chain_of(prove_ov_hdr.0@)
            is None) ==> r is Err,
        (ov.entries@.len() > 0 && voucher_owner(*ov) is Some && prove_ov_hdr_signed(
            prove_ov_hdr.0@,
            voucher_owner(*ov).unwrap(),
        ) && cose_signature_checks(to1d.0@, voucher_owner(*ov).unwrap(), domain_aad("FDO-TO0-OwnerSign-v1"@)))
            ==> (r matches Ok(k) && k.encoded@ == voucher_owner(*ov).unwrap()),
{
    let owner = ov.validated_owner_public_key()?;
    let delegate = delegate_key(prove_ov_hdr.0.as_slice())?;
    let hdr_aad = aad_prove_ov_hdr();
    let hdr_ok = match &delegate {
        Some(spki) => verify_cose_sign1_spki(prove_ov_hdr.0.as_slice(), spki.as_slice(), hdr_aad.as_slice()),
        None => verify_cose_sign1(prove_ov_hdr.0.as_slice(), &owner, hdr_aad.as_slice()),
    };
    if !hdr_ok {
        return Err(Error::new("Error validating ProveOVHdr20 signature"));
    }
    let owner_aad = aad_owner_sign();
    if !verify_cose_sign1(to1d.0.as_slice(), &owner, owner_aad.as_slice()) {
        return Err(Error::new("Error validating TO1D signature"));
    }
    Ok(owner)
}

// ------------------------------------------------------------------
// Payloads the device signs
// ------------------------------------------------------------------

/// The EAT claims the device proves itself to a rendezvous server with:
/// the map `{10: nonce, 256: UEID}`, the UEID being the byte 1 (a random
/// identifier) followed by the GUID.
pub open spec fn eat_payload_encoding(nonce: Seq<u8>, guid: Seq<u8>) -> Seq<u8> {
    cbor_map_head(2) + cbor_int(10) + cbor_bytes(nonce) + cbor_int(256) + cbor_bytes(seq![1u8] + guid)
}

/// The EAT payload of ProveToRV for `nonce` and the device `guid`.
pub fn eat_payload(nonce: &Nonce, guid: &Guid) -> (r: Vec<u8>)
    ensures
        r@ == eat_payload_encoding(nonce.0@, guid.0@),
{
    let mut ueid: Vec<u8> = Vec::new();
    ueid.push(1u8);
    crate::csr::append_bytes(&mut ueid, guid.0.as_slice());
    let mut r: Vec<u8> = Vec::new();
    write_head(&mut r, 5, 2);
    write_int(&mut r, 10);
    write_bytes(&mut r, nonce.0.as_slice());
    write_int(&mut r, 256);
    write_bytes(&mut r, ueid.as_slice());
    proof {
        assert(ueid@ =~= seq![1u8] + guid.0@);
        assert(r@ =~= eat_payload_encoding(nonce.0@, guid.0@));
    }
    r
}

/// The payload of ProveDevice20: `[key exchange suite, cipher suite, xA,
/// echoed nonce, hash of HelloDeviceAck20]`.
pub open spec fn prove_device_payload_encoding(
    kex: KexSuite,
    cipher: CipherSuite,
    xa: Seq<u8>,
    nonce: Seq<u8>,
    hash_type: HashType,
    hash: Seq<u8>,
) -> Seq<u8> {
    cbor_array(
        seq![
            cbor_int(kex.spec_code() as int),
            cbor_int(cipher.spec_code() as int),
            cbor_bytes(xa),
            cbor_bytes(nonce),
            hash_encoding(hash_type, hash),
        ],
    )
}

/// The payload of ProveDevice20 the device signs.
pub fn prove_device_payload(kex: KexSuite, cipher: CipherSuite, xa: &[u8], nonce: &Nonce, hash_prev: &crate::types::Hash) -> (r:
    Vec<u8>)
    ensures
        r@ == prove_device_payload_encoding(
            kex,
            cipher,
            xa@,
            nonce.0@,
            hash_prev.hash_type,
            hash_prev.value@,
        ),
{
    let ghost parts = seq![
        cbor_int(kex.spec_code() as int),
        cbor_int(cipher.spec_code() as int),
        cbor_bytes(xa@),
        cbor_bytes(nonce.0@),
        hash_encoding(hash_prev.hash_type, hash_prev.value@),
    ];
    let mut r: Vec<u8> = Vec::new();
    write_head(&mut r, 4, 5);
    proof {
        assert(parts.subrange(0, 0) =~= Seq::<Seq<u8>>::empty());
    }
    write_int(&mut r, kex.code() as i64);
    proof {
        lemma_concat_push(parts.subrange(0, 0), parts[0]);
        assert(parts.subrange(0, 1) =~= parts.subrange(0, 0).push(parts[0]));
    }
    write_int(&mut r, cipher.code() as i64);
    proof {
        lemma_concat_push(parts.subrange(0, 1), parts[1]);
        assert(parts.subrange(0, 2) =~= parts.subrange(0, 1).push(parts[1]));
    }
    write_bytes(&mut r, xa);
    proof {
        lemma_concat_push(parts.subrange(0, 2), parts[2]);
        assert(parts.subrange(0, 3) =~= parts.subrange(0, 2).push(parts[2]));
    }
    write_bytes(&mut r, nonce.0.as_slice());
    proof {
        lemma_concat_push(parts.subrange(0, 3), parts[3]);
        assert(parts.subrange(0, 4) =~= parts.subrange(0, 3).push(parts[3]));
    }
    write_hash(&mut r, hash_prev.hash_type, hash_prev.value.as_slice());
    proof {
        lemma_concat_push(parts.subrange(0, 4), parts[4]);
        assert(parts.subrange(0, 5) =~= parts.subrange(0, 4).push(parts[4]));
        assert(parts.subrange(0, 5) =~= parts);
        assert(r@ =~= prove_device_payload_encoding(
            kex,
            cipher,
            xa@,
            nonce.0@,
            hash_prev.hash_type,
            hash_prev.value@,
        ));
    }
    r
}

// ------------------------------------------------------------------
// Owner addresses
// ------------------------------------------------------------------

/// One address at which the owner answers TO2: an IP address (in its text
/// form) and/or a DNS name, a port and a transport protocol.
#[derive(Debug)]
pub struct TO2AddressEntry {
    pub ip: Option<String>,
    pub dns: Option<String>,
    pub port: u16,
    pub protocol: TransportProtocol,
}

/// An owner address as TO1D carries it: the IP address's bytes, the DNS
/// name, the port and the transport protocol's number.
#[derive(Debug)]
pub struct RvTo2AddrEntry {
    pub ip: Option<Vec<u8>>,
    pub dns: Option<String>,
    pub port: u16,
    pub protocol: u8,
}

/// An owner address as plain values.
pub type RvTo2AddrFields = (Option<Seq<u8>>, Option<Seq<char>>, u16, u8);

pub open spec fn rv_to2_addr_view(e: RvTo2AddrEntry) -> RvTo2AddrFields {
    (
        match e.ip {
            Some(b) => Some(b@),
            None => None,
        },
        match e.dns {
            Some(d) => Some(d@),
            None => None,
        },
        e.port,
        e.protocol,
    )
}

/// The owner address `e` encodes: `[IP bytes or null, DNS name or null,
/// port, protocol]`.
pub open spec fn rv_to2_addr_of(e: Seq<u8>) -> Option<RvTo2AddrFields> {
    match array_elements(e) {
        Some(p) => if p.len() == 4 {
            let ip = if is_null_item(p[0]) {
                Some(None)
            } else {
                match bytes_of(p[0]) {
                    Some(b) => Some(Some(b)),
                    None => None,
                }
            };
            let dns = if is_null_item(p[1]) {
                Some(None)
            } else {
                match text_item(p[1]) {
                    Some(t) => Some(Some(t)),
                    None => None,
                }
            };
            match (ip, dns, uint_of(p[2]), uint_of(p[3])) {
                (Some(i), Some(d), Some(port), Some(prot)) => if port < 0x1_0000 && prot < 0x100 {
                    Some((i, d, port as u16, prot as u8))
                } else {
                    None
                },
                _ => None,
            }
        } else {
            None
        },
        None => None,
    }
}

/// The owner addresses a TO1D payload `d` carries: `d` is `[addresses,
/// hash]`, the addresses an array whose every item is an owner address.
pub open spec fn to1d_addresses_of(d: Seq<u8>) -> Option<Seq<RvTo2AddrFields>> {
    match array_elements(d) {
        Some(p) => if p.len() == 2 && hash_pair_of(p[1]) is Some {
            match array_elements(p[0]) {
                Some(q) => if forall|i: int| 0 <= i < q.len() ==> (#[trigger] rv_to2_addr_of(q[i])) is Some {
                    Some(Seq::new(q.len(), |i: int| rv_to2_addr_of(q[i]).unwrap()))
                } else {
                    None
                },
                None => None,
            }
        } else {
            None
        },
        None => None,
    }
}

fn read_rv_to2_addr(e: &[u8]) -> (r: Option<RvTo2AddrEntry>)
    ensures
        r is None <==> rv_to2_addr_of(e@) is None,
        r matches Some(a) ==> rv_to2_addr_of(e@) == Some(rv_to2_addr_view(a)),
{
    let p = match split_array(e) {
        Some(p) => p,
        None => {
            return None;
        },
    };
    if p.len() != 4 {
        return None;
    }
    proof {
        let v = parts_view(p@);
        assert(v[0] == p@[0]@);
        assert(v[1] == p@[1]@);
        assert(v[2] == p@[2]@);
        assert(v[3] == p@[3]@);
    }
    let ip = if read_null(p[0].as_slice()) {
        None
    } else {
        match read_bytes(p[0].as_slice()) {
            Some(b) => Some(b),
            None => {
                return None;
            },
        }
    };
    let dns = if read_null(p[1].as_slice()) {
        None
    } else {
        match read_text(p[1].as_slice()) {
            Some(t) => Some(t),
            None => {
                return None;
            },
        }
    };
    match (read_uint(p[2].as_slice()), read_uint(p[3].as_slice())) {
        (Some(port), Some(prot)) => if port < 0x1_0000 && prot < 0x100 {
            Some(RvTo2AddrEntry { ip, dns, port: port as u16, protocol: prot as u8 })
        } else {
            None
        },
        _ => None,
    }
}

/// The owner addresses of a TO1D payload (read from the blob the
/// rendezvous server returned, before its signature is checked).
pub fn to1d_addresses(payload: &[u8]) -> (r: Result<Vec<RvTo2AddrEntry>, Error>)
    ensures
        r is Ok <==> to1d_addresses_of(payload@) is Some,
        r matches Ok(v) ==> to1d_addresses_of(payload@) == Some(v@.map_values(|a: RvTo2AddrEntry| rv_to2_addr_view(a))),
{
    let p = match split_array(payload) {
        Some(p) => p,
        None => {
            return Err(Error::new("TO1D payload is not a CBOR array"));
        },
    };
    if p.len() != 2 {
        return Err(Error::new("TO1D payload must have 2 elements"));
    }
    proof {
        assert(parts_view(p@)[0] == p@[0]@);
        assert(parts_view(p@)[1] == p@[1]@);
    }
    if read_hash_pair(p[1].as_slice()).is_none() {
        return Err(Error::new("Invalid TO1D hash"));
    }
    let q = match split_array(p[0].as_slice()) {
        Some(q) => q,
        None => {
            return Err(Error::new("TO1D addresses are not a CBOR array"));
        },
    };
    let ghost qv = parts_view(q@);
    let mut out: Vec<RvTo2AddrEntry> = Vec::new();
    let mut i: usize = 0;
    while i < q.len()
        invariant
            i <= q@.len(),
            qv == parts_view(q@),
            p@.len() == 2,
            array_elements(payload@) == Some(parts_view(p@)),
            parts_view(p@)[0] == p@[0]@,
            parts_view(p@)[1] == p@[1]@,
            hash_pair_of(p@[1]@) is Some,
            array_elements(p@[0]@) == Some(qv),
            forall|j: int| 0 <= j < i ==> (#[trigger] rv_to2_addr_of(qv[j])) is Some,
            out@.map_values(|a: RvTo2AddrEntry| rv_to2_addr_view(a)) == Seq::new(
                i as nat,
                |j: int| rv_to2_addr_of(qv[j]).unwrap(),
            ),
        decreases q@.len() - i,
    {
        proof {
            assert(qv[i as int] == q@[i as int]@);
        }
        let a = match read_rv_to2_addr(q[i].as_slice()) {
            Some(a) => a,
            None => {
                assert(!(forall|j: int| 0 <= j < qv.len() ==> (#[trigger] rv_to2_addr_of(qv[j])) is Some));
                return Err(Error::new("Invalid TO2 address"));
            },
        };
        let ghost before = out@;
        let ghost av = rv_to2_addr_view(a);
        out.push(a);
        proof {
            assert(out@.map_values(|a: RvTo2AddrEntry| rv_to2_addr_view(a)) =~= before.map_values(
                |a: RvTo2AddrEntry| rv_to2_addr_view(a),
            ).push(av));
            assert(out@.map_values(|a: RvTo2AddrEntry| rv_to2_addr_view(a)) =~= Seq::new(
                (i + 1) as nat,
                |j: int| rv_to2_addr_of(qv[j]).unwrap(),
            ));
        }
        i = i + 1;
    }
    proof {
        assert(out@.map_values(|a: RvTo2AddrEntry| rv_to2_addr_view(a)) =~= Seq::new(
            qv.len(),
            |j: int| rv_to2_addr_of(qv[j]).unwrap(),
        ));
    }
    Ok(out)
}

/// The URL scheme of a protocol the device reaches the owner with.
pub open spec fn url_scheme(p: TransportProtocol) -> Option<Seq<char>> {
    match p {
        TransportProtocol::Http => Some("http"@),
        TransportProtocol::Https => Some("https"@),
        _ => None,
    }
}

/// `scheme://host:port`.
pub open spec fn host_url(scheme: Seq<char>, host: Seq<char>, port: u16) -> Seq<char> {
    scheme + "://"@ + host + ":"@ + decimal(port as nat)
}

/// The URLs of one address: by DNS name first, then by IP address, for
/// HTTP and HTTPS only.
pub open spec fn entry_urls(e: TO2AddressEntry) -> Seq<Seq<char>> {
    match url_scheme(e.protocol) {
        None => Seq::empty(),
        Some(scheme) => {
            let by_dns = match e.dns {
                Some(d) => seq![host_url(scheme, d@, e.port)],
                None => Seq::empty(),
            };
            let by_ip = match e.ip {
                Some(i) => seq![host_url(scheme, i@, e.port)],
                None => Seq::empty(),
            };
            by_dns + by_ip
        },
    }
}

/// The URLs of a list of addresses, in order.
pub open spec fn to2_urls(entries: Seq<TO2AddressEntry>) -> Seq<Seq<char>>
    decreases entries.len(),
{
    if entries.len() == 0 {
        Seq::empty()
    } else {
        to2_urls(entries.drop_last()) + entry_urls(entries.last())
    }
}

pub open spec fn strings_view(v: Seq<String>) -> Seq<Seq<char>> {
    v.map_values(|s: String| s@)
}

fn push_host_url(urls: &mut Vec<String>, scheme: &str, host: &str, port: u16)
    ensures
        strings_view(final(urls)@) == strings_view(old(urls)@).push(host_url(scheme@, host@, port)),
{
    let mut u = String::from_str(scheme);
    u.append("://");
    u.append(host);
    u.append(":");
    let p = u128_to_decimal(port as u128);
    u.append(p.as_str());
    urls.push(u);
    assert(strings_view(urls@) =~= strings_view(old(urls)@).push(host_url(scheme@, host@, port)));
}

/// The URLs the device tries TO2 at, from the owner addresses TO1 gave:
/// for each HTTP or HTTPS address, its DNS name and then its IP address.
/// Addresses with other protocols are skipped.
pub fn get_to2_urls(entries: &[TO2AddressEntry]) -> (r: Vec<String>)
    ensures
        strings_view(r@) == to2_urls(entries@),
{
    let mut urls: Vec<String> = Vec::new();
    let mut i: usize = 0;
    while i < entries.len()
        invariant
            i <= entries@.len(),
            strings_view(urls@) == to2_urls(entries@.subrange(0, i as int)),
        decreases entries@.len() - i,
    {
        let e = &entries[i];
        let ghost before = strings_view(urls@);
        proof {
            let s = entries@.subrange(0, i as int + 1);
            assert(s.drop_last() =~= entries@.subrange(0, i as int));
            assert(s.last() == entries@[i as int]);
        }
        let scheme: Option<&str> = match e.protocol {
            TransportProtocol::Http => Some("http"),
            TransportProtocol::Https => Some("https"),
            _ => None,
        };
        match scheme {
            None => {
                assert(strings_view(urls@) =~= before + entry_urls(entries@[i as int]));
            },
            Some(sc) => {
                if let Some(d) = &e.dns {
                    push_host_url(&mut urls, sc, d.as_str(), e.port);
                }
                let ghost mid = strings_view(urls@);
                if let Some(ip) = &e.ip {
                    push_host_url(&mut urls, sc, ip.as_str(), e.port);
                }
                assert(strings_view(urls@) =~= before + entry_urls(entries@[i as int]));
            },
        }
        i = i + 1;
    }
    assert(entries@.subrange(0, entries@.len() as int) =~= entries@);
    urls
}

// ------------------------------------------------------------------
// Rendezvous servers
// ------------------------------------------------------------------

/// The protocols a rendezvous directive may name.
#[derive(Debug, Clone, Copy, PartialEq, Eq, Structural)]
pub enum RendezvousProtocolValue {
    Rest,
    Http,
    Https,
    Tcp,
    Tls,
    CoapTcp,
    CoapUdp,
}

/// A rendezvous directive as the device reads it: the URLs of the server
/// it names, its protocol, what else it asks of the device, and the delay
/// before a retry.
#[derive(Debug)]
pub struct RendezvousInterpretedDirective {
    pub urls: Vec<String>,
    pub protocol: RendezvousProtocolValue,
    pub bypass: bool,
    pub wifi_ssid: Option<String>,
    pub user_input: bool,
    pub delay: u32,
}

/// The URLs of the rendezvous server a directive lets the device contact.
/// A directive asking for rendezvous bypass, Wi-Fi configuration or user
/// input is refused (in that order of checking), and so is one naming a
/// protocol other than HTTP or HTTPS.
pub fn rendezvous_client_urls(rv_entry: &RendezvousInterpretedDirective) -> (r: Result<Vec<String>, Error>)
    ensures
        r is Ok <==> (!rv_entry.bypass && rv_entry.wifi_ssid is None && !rv_entry.user_input && (
        rv_entry.protocol == RendezvousProtocolValue::Http || rv_entry.protocol
            == RendezvousProtocolValue::Https)),
        r matches Ok(v) ==> strings_view(v@) == strings_view(rv_entry.urls@),
        rv_entry.bypass ==> (r matches Err(e) && e.0@ == "Rendezvous Bypass is not yet implemented"@),
        !rv_entry.bypass && rv_entry.wifi_ssid is Some ==> (r matches Err(e) && e.0@
            == "Rendezvous WiFi configuration is not yet implemented"@),
        !rv_entry.bypass && rv_entry.wifi_ssid is None && rv_entry.user_input ==> (r matches Err(e)
            && e.0@ == "Rendezvous User Input is not yet implemented"@),
{
    if rv_entry.bypass {
        return Err(Error::new("Rendezvous Bypass is not yet implemented"));
    }
    if rv_entry.wifi_ssid.is_some() {
        return Err(Error::new("Rendezvous WiFi configuration is not yet implemented"));
    }
    if rv_entry.user_input {
        return Err(Error::new("Rendezvous User Input is not yet implemented"));
    }
    match rv_entry.protocol {
        RendezvousProtocolValue::Http | RendezvousProtocolValue::Https => {},
        _ => {
            return Err(Error::new("Non-HTTP(S) protocol is not implemented"));
        },
    }
    let mut urls: Vec<String> = Vec::new();
    let mut i: usize = 0;
    while i < rv_entry.urls.len()
        invariant
            i <= rv_entry.urls@.len(),
            strings_view(urls@) == strings_view(rv_entry.urls@.subrange(0, i as int)),
        decreases rv_entry.urls@.len() - i,
    {
        let u = rv_entry.urls[i].clone();
        let ghost before = urls@;
        urls.push(u);
        proof {
            assert(strings_view(urls@) =~= strings_view(before).push(u@));
            assert(rv_entry.urls@.subrange(0, i as int + 1) =~= rv_entry.urls@.subrange(0, i as int).push(
                rv_entry.urls@[i as int],
            ));
            assert(strings_view(urls@) =~= strings_view(rv_entry.urls@.subrange(0, i as int + 1)));
        }
        i = i + 1;
    }
    proof {
        assert(rv_entry.urls@.subrange(0, rv_entry.urls@.len() as int) =~= rv_entry.urls@);
    }
    Ok(urls)
}

// ------------------------------------------------------------------
// Whether to onboard at all
// ------------------------------------------------------------------

/// Whether the device takes part in onboarding with its credential.
#[derive(Debug, PartialEq, Eq, Structural)]
pub enum CredentialDecision {
    /// The credential was deactivated: onboarding is skipped.
    Skip,
    /// Onboard with this credential.
    Proceed,
}

/// A credential takes part in onboarding when it is active; its protocol
/// version must be one the device speaks (1.0, 1.1 or 2.0).
pub fn check_credential(active: bool, version: ProtocolVersion) -> (r: Result<CredentialDecision, Error>)
    ensures
        !active ==> r == Ok::<CredentialDecision, Error>(CredentialDecision::Skip),
        active ==> (r matches Ok(d) && d == CredentialDecision::Proceed),
{
    if !active {
        return Ok(CredentialDecision::Skip);
    }
    Ok(CredentialDecision::Proceed)
}

/// Whether the voucher header the owner sent names the manufacturer key
/// the device's credential holds the hash of: the header's manufacturer
/// key, hashed with the credential's hash type, gives the credential's
/// hash. An HMAC type cannot hash, and a digest OpenSSL fails to compute
/// matches nothing: both give `false`.
pub fn manufacturer_key_matches(
    header: &crate::ownershipvoucher::OwnershipVoucherHeader,
    expected: &crate::types::Hash,
) -> (r: bool)
    ensures
        r == (crate::ownershipvoucher::digest_result(expected.hash_type, header.manufacturer_public_key.encoded@)
            == Some(expected.value@)),
{
    match header.manufacturer_public_key_hash(expected.hash_type) {
        Ok(h) => bytes_eq(h.value.as_slice(), expected.value.as_slice()),
        Err(_) => false,
    }
}

// ------------------------------------------------------------------
// Reading rendezvous directives
// ------------------------------------------------------------------

/// The value of the last variable numbered `key` in a directive.
pub open spec fn last_value(vars: Seq<(u8, Seq<u8>)>, key: u8) -> Option<Seq<u8>>
    decreases vars.len(),
{
    if vars.len() == 0 {
        None
    } else if vars.last().0 == key {
        Some(vars.last().1)
    } else {
        last_value(vars.drop_last(), key)
    }
}

/// The value of the last variable numbered `key`, and its text when the
/// value is a text string with valid UTF-8.
pub open spec fn last_text(vars: Seq<(u8, Seq<u8>)>, key: u8) -> Option<Seq<char>> {
    match last_value(vars, key) {
        Some(v) => text_item(v),
        None => None,
    }
}

/// An IP address value: a byte string of 4 (IPv4) or 16 (IPv6) bytes.
pub open spec fn ip_value(v: Seq<u8>) -> Option<Seq<u8>> {
    match bytes_of(v) {
        Some(b) => if b.len() == 4 || b.len() == 16 {
            Some(b)
        } else {
            None
        },
        None => None,
    }
}

/// The protocol a protocol variable names: 0 REST, 1 HTTP, 2 HTTPS, 3 TCP,
/// 4 TLS, 5 CoAP over TCP, anything else CoAP over UDP.
pub open spec fn protocol_named(v: Option<nat>) -> RendezvousProtocolValue {
    match v {
        Some(n) => if n == 0 {
            RendezvousProtocolValue::Rest
        } else if n == 1 {
            RendezvousProtocolValue::Http
        } else if n == 2 {
            RendezvousProtocolValue::Https
        } else if n == 3 {
            RendezvousProtocolValue::Tcp
        } else if n == 4 {
            RendezvousProtocolValue::Tls
        } else if n == 5 {
            RendezvousProtocolValue::CoapTcp
        } else {
            RendezvousProtocolValue::CoapUdp
        },
        None => RendezvousProtocolValue::CoapUdp,
    }
}

/// What a rendezvous directive tells the device, with the server's hosts
/// still as values: `None` for a directive meant for the owner only
/// (variable 1). Of each variable the last one counts: DNS name (5), IP
/// address (2), device port (3), protocol (12, HTTP when absent), bypass
/// (14), Wi-Fi SSID (9), user input (8) and the retry delay in seconds
/// (13; 0 when absent or not a 32-bit number).
#[derive(Debug)]
pub struct RendezvousHosts {
    pub dns: Option<String>,
    pub ip: Option<Vec<u8>>,
    pub port: Option<u64>,
    pub protocol: RendezvousProtocolValue,
    pub bypass: bool,
    pub wifi_ssid: Option<String>,
    pub user_input: bool,
    pub delay: u32,
}

/// The delay a delay variable's value gives.
pub open spec fn delay_value(v: Option<Seq<u8>>) -> u32 {
    match v {
        Some(b) => match uint_of(b) {
            Some(d) => if d < 0x1_0000_0000 {
                d as u32
            } else {
                0
            },
            None => 0,
        },
        None => 0,
    }
}

/// Whether `h` is what the directive `vars` tells the device.
pub open spec fn hosts_of(vars: Seq<(u8, Seq<u8>)>, h: RendezvousHosts) -> bool {
    &&& opt_text_view(h.dns) == last_text(vars, 5)
    &&& opt_bytes_seq(h.ip) == (match last_value(vars, 2) {
        Some(v) => ip_value(v),
        None => None,
    })
    &&& opt_u64_nat(h.port) == (match last_value(vars, 3) {
        Some(v) => uint_of(v),
        None => None,
    })
    &&& h.protocol == (match last_value(vars, 12) {
        Some(v) => protocol_named(uint_of(v)),
        None => RendezvousProtocolValue::Http,
    })
    &&& h.bypass == (last_value(vars, 14) is Some)
    &&& opt_text_view(h.wifi_ssid) == last_text(vars, 9)
    &&& h.user_input == (last_value(vars, 8) is Some)
    &&& h.delay == delay_value(last_value(vars, 13))
}

pub open spec fn opt_text_view(o: Option<String>) -> Option<Seq<char>> {
    match o {
        Some(s) => Some(s@),
        None => None,
    }
}

pub open spec fn opt_bytes_seq(o: Option<Vec<u8>>) -> Option<Seq<u8>> {
    match o {
        Some(b) => Some(b@),
        None => None,
    }
}

pub open spec fn opt_u64_nat(o: Option<u64>) -> Option<nat> {
    match o {
        Some(n) => Some(n as nat),
        None => None,
    }
}

fn find_last_value(d: &Vec<RendezvousDirective>, key: u8) -> (r: Option<Vec<u8>>)
    ensures
        opt_bytes_seq(r) == last_value(directive_view(d@), key),
{
    let ghost all = directive_view(d@);
    let mut i: usize = d.len();
    proof {
        assert(all.subrange(0, all.len() as int) =~= all);
    }
    while i > 0
        invariant
            i <= d@.len(),
            all == directive_view(d@),
            last_value(all, key) == last_value(all.subrange(0, i as int), key),
        decreases i,
    {
        let ghost pre = all.subrange(0, i as int);
        proof {
            assert(pre.last() == all[i as int - 1]);
            assert(pre.drop_last() =~= all.subrange(0, i as int - 1));
        }
        if d[i - 1].key == key {
            return Some(crate::ownershipvoucher::copy_bytes(&d[i - 1].value));
        }
        i = i - 1;
    }
    None
}

/// What the rendezvous directive `d` tells the device; `None` for a
/// directive meant for the owner only.
pub fn rendezvous_hosts(d: &Vec<RendezvousDirective>) -> (r: Option<RendezvousHosts>)
    ensures
        r is None <==> last_value(directive_view(d@), 1) is Some,
        r matches Some(h) ==> hosts_of(directive_view(d@), h),
{
    if find_last_value(d, 1).is_some() {
        return None;
    }
    let dns = match find_last_value(d, 5) {
        Some(v) => read_text(v.as_slice()),
        None => None,
    };
    let ip = match find_last_value(d, 2) {
        Some(v) => match read_bytes(v.as_slice()) {
            Some(b) => if b.len() == 4 || b.len() == 16 {
                Some(b)
            } else {
                None
            },
            None => None,
        },
        None => None,
    };
    let port = match find_last_value(d, 3) {
        Some(v) => read_uint(v.as_slice()),
        None => None,
    };
    let protocol = match find_last_value(d, 12) {
        Some(v) => match read_uint(v.as_slice()) {
            Some(n) => if n == 0 {
                RendezvousProtocolValue::Rest
            } else if n == 1 {
                RendezvousProtocolValue::Http
            } else if n == 2 {
                RendezvousProtocolValue::Https
            } else if n == 3 {
                RendezvousProtocolValue::Tcp
            } else if n == 4 {
                RendezvousProtocolValue::Tls
            } else if n == 5 {
                RendezvousProtocolValue::CoapTcp
            } else {
                RendezvousProtocolValue::CoapUdp
            },
            None => RendezvousProtocolValue::CoapUdp,
        },
        None => RendezvousProtocolValue::Http,
    };
    let bypass = find_last_value(d, 14).is_some();
    let wifi_ssid = match find_last_value(d, 9) {
        Some(v) => read_text(v.as_slice()),
        None => None,
    };
    let user_input = find_last_value(d, 8).is_some();
    let delay: u32 = match find_last_value(d, 13) {
        Some(v) => match read_uint(v.as_slice()) {
            Some(n) => if n < 0x1_0000_0000 {
                n as u32
            } else {
                0
            },
            None => 0,
        },
        None => 0,
    };
    Some(RendezvousHosts { dns, ip, port, protocol, bypass, wifi_ssid, user_input, delay })
}

/// The URL scheme of a rendezvous server: HTTPS for the HTTPS protocol,
/// else HTTP.
pub open spec fn rv_scheme(p: RendezvousProtocolValue) -> Seq<char> {
    if p == RendezvousProtocolValue::Https {
        "https"@
    } else {
        "http"@
    }
}

/// The port of a rendezvous server: the device port named, else 443 for
/// HTTPS and 80 otherwise.
pub open spec fn rv_port(h: RendezvousHosts) -> nat {
    match h.port {
        Some(p) => p as nat,
        None => if h.protocol == RendezvousProtocolValue::Https {
            443
        } else {
            80
        },
    }
}

/// `scheme://host:port` with any port number.
pub open spec fn rv_url(scheme: Seq<char>, host: Seq<char>, port: nat) -> Seq<char> {
    scheme + "://"@ + host + ":"@ + decimal(port)
}

fn push_rv_url(urls: &mut Vec<String>, scheme: &str, host: &str, port: u64)
    ensures
        strings_view(final(urls)@) == strings_view(old(urls)@).push(rv_url(scheme@, host@, port as nat)),
{
    let mut u = String::from_str(scheme);
    u.append("://");
    u.append(host);
    u.append(":");
    let p = u128_to_decimal(port as u128);
    u.append(p.as_str());
    urls.push(u);
    assert(strings_view(urls@) =~= strings_view(old(urls)@).push(rv_url(scheme@, host@, port as nat)));
}

/// The directive the device works with: the server's URLs, by DNS name
/// first and then by IP address (`ip_text` is the text form of `h.ip`,
/// which the caller writes), each `scheme://host:port`; and what else the
/// directive asks of the device.
pub fn interpret_rendezvous_directive(h: RendezvousHosts, ip_text: Option<String>) -> (r:
    RendezvousInterpretedDirective)
    ensures
        strings_view(r.urls@) == (match h.dns {
            Some(d) => seq![rv_url(rv_scheme(h.protocol), d@, rv_port(h))],
            None => Seq::empty(),
        }) + (match ip_text {
            Some(i) => seq![rv_url(rv_scheme(h.protocol), i@, rv_port(h))],
            None => Seq::empty(),
        }),
        r.protocol == h.protocol,
        r.bypass == h.bypass,
        opt_text_view(r.wifi_ssid) == opt_text_view(h.wifi_ssid),
        r.user_input == h.user_input,
        r.delay == h.delay,
{
    let scheme: &str = if h.protocol == RendezvousProtocolValue::Https {
        "https"
    } else {
        "http"
    };
    proof {
        reveal_strlit("https");
        reveal_strlit("http");
    }
    let port: u64 = match h.port {
        Some(p) => p,
        None => if h.protocol == RendezvousProtocolValue::Https {
            443
        } else {
            80
        },
    };
    let mut urls: Vec<String> = Vec::new();
    if let Some(dns) = &h.dns {
        push_rv_url(&mut urls, scheme, dns.as_str(), port);
    }
    if let Some(ip) = &ip_text {
        push_rv_url(&mut urls, scheme, ip.as_str(), port);
    }
    proof {
        assert(strings_view(urls@) =~= (match h.dns {
            Some(d) => seq![rv_url(rv_scheme(h.protocol), d@, rv_port(h))],
            None => Seq::<Seq<char>>::empty(),
        }) + (match ip_text {
            Some(i) => seq![rv_url(rv_scheme(h.protocol), i@, rv_port(h))],
            None => Seq::<Seq<char>>::empty(),
        }));
    }
    RendezvousInterpretedDirective {
        urls,
        protocol: h.protocol,
        bypass: h.bypass,
        wifi_ssid: h.wifi_ssid,
        user_input: h.user_input,
        delay: h.delay,
    }
}

} // verus!
