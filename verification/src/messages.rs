//! Protocol messages: which message may follow which, and which must travel
//! encrypted. The message structures themselves are in `v20` (the FDO 2.0
//! protocol) and `crate::messages_uefi` (the firmware profile).

use vstd::prelude::*;

use crate::constants::MessageType;

pub mod v20;

verus! {

/// Whether a message must, or must not, be sent over the encrypted channel.
#[derive(Debug, Clone, Copy, PartialEq, Eq, Structural)]
pub enum EncryptionRequirement {
    MustBeEncrypted,
    MustNotBeEncrypted,
}

/// The protocol's sequencing: `prev` is the message received or sent just
/// before one of type `t` (`None` at the start of a protocol run).
pub open spec fn valid_previous_message(t: MessageType, prev: Option<MessageType>) -> bool {
    match t {
        MessageType::DIAppStart => prev is None,
        MessageType::DISetCredentials => prev == Some(MessageType::DIAppStart),
        MessageType::DISetHMAC => prev == Some(MessageType::DISetCredentials),
        MessageType::DIDone => prev == Some(MessageType::DISetHMAC),
        MessageType::TO1HelloRV => prev is None,
        MessageType::TO1HelloRVAck => prev == Some(MessageType::TO1HelloRV),
        MessageType::TO1ProveToRV => prev == Some(MessageType::TO1HelloRVAck),
        MessageType::TO1RVRedirect => prev == Some(MessageType::TO1ProveToRV),
        MessageType::TO2HelloDeviceProbe => prev is None,
        MessageType::TO2HelloDeviceAck20 => prev == Some(MessageType::TO2HelloDeviceProbe),
        MessageType::TO2ProveDevice20 => prev == Some(MessageType::TO2HelloDeviceAck20),
        MessageType::TO2ProveOVHdr20 => prev == Some(MessageType::TO2ProveDevice20),
        MessageType::TO2GetOVNextEntry20 => prev == Some(MessageType::TO2ProveOVHdr20) || prev
            == Some(MessageType::TO2OVNextEntry20),
        MessageType::TO2OVNextEntry20 => prev == Some(MessageType::TO2GetOVNextEntry20),
        MessageType::TO2DeviceSvcInfoRdy20 => prev == Some(MessageType::TO2OVNextEntry20) || prev
            == Some(MessageType::TO2ProveOVHdr20),
        MessageType::TO2SetupDevice20 => prev == Some(MessageType::TO2DeviceSvcInfoRdy20),
        MessageType::TO2DeviceSvcInfo20 => prev == Some(MessageType::TO2SetupDevice20) || prev
            == Some(MessageType::TO2OwnerSvcInfo20),
        MessageType::TO2OwnerSvcInfo20 => prev == Some(MessageType::TO2DeviceSvcInfo20),
        MessageType::TO2Done20 => prev == Some(MessageType::TO2OwnerSvcInfo20) || prev == Some(
            MessageType::TO2SetupDevice20,
        ),
        MessageType::TO2DoneAck20 => prev == Some(MessageType::TO2Done20),
        MessageType::Error => false,
    }
}

/// Which messages travel encrypted: from TO2.DeviceSvcInfoRdy20 on.
pub open spec fn required_encryption(t: MessageType) -> EncryptionRequirement {
    match t {
        MessageType::TO2DeviceSvcInfoRdy20
        | MessageType::TO2SetupDevice20
        | MessageType::TO2DeviceSvcInfo20
        | MessageType::TO2OwnerSvcInfo20
        | MessageType::TO2Done20
        | MessageType::TO2DoneAck20 => EncryptionRequirement::MustBeEncrypted,
        _ => EncryptionRequirement::MustNotBeEncrypted,
    }
}

/// A sequence of messages every one of which may follow the one before it,
/// the first starting a run.
pub open spec fn is_valid_run(run: Seq<MessageType>) -> bool {
    &&& run.len() > 0
    &&& valid_previous_message(run[0], None)
    &&& forall|i: int|
        1 <= i < run.len() ==> #[trigger] valid_previous_message(run[i], Some(run[i - 1]))
}

/// `n` voucher entry requests, each followed by its answer.
pub open spec fn ov_entry_rounds(n: nat) -> Seq<MessageType>
    decreases n,
{
    if n == 0 {
        Seq::empty()
    } else {
        ov_entry_rounds((n - 1) as nat) + seq![
            MessageType::TO2GetOVNextEntry20,
            MessageType::TO2OVNextEntry20,
        ]
    }
}

/// `k` ServiceInfo rounds, device first.
pub open spec fn service_info_rounds(k: nat) -> Seq<MessageType>
    decreases k,
{
    if k == 0 {
        Seq::empty()
    } else {
        service_info_rounds((k - 1) as nat) + seq![
            MessageType::TO2DeviceSvcInfo20,
            MessageType::TO2OwnerSvcInfo20,
        ]
    }
}

/// The TO2 exchange as the protocol documents it, with `n` voucher entries
/// fetched and `k` ServiceInfo rounds.
pub open spec fn to2_run(n: nat, k: nat) -> Seq<MessageType> {
    seq![
        MessageType::TO2HelloDeviceProbe,
        MessageType::TO2HelloDeviceAck20,
        MessageType::TO2ProveDevice20,
        MessageType::TO2ProveOVHdr20,
    ] + ov_entry_rounds(n) + seq![MessageType::TO2DeviceSvcInfoRdy20, MessageType::TO2SetupDevice20]
        + service_info_rounds(k) + seq![MessageType::TO2Done20, MessageType::TO2DoneAck20]
}

/// The DI exchange.
pub open spec fn di_run() -> Seq<MessageType> {
    seq![
        MessageType::DIAppStart,
        MessageType::DISetCredentials,
        MessageType::DISetHMAC,
        MessageType::DIDone,
    ]
}

/// The TO1 exchange.
pub open spec fn to1_run() -> Seq<MessageType> {
    seq![
        MessageType::TO1HelloRV,
        MessageType::TO1HelloRVAck,
        MessageType::TO1ProveToRV,
        MessageType::TO1RVRedirect,
    ]
}

/// A protocol run starts only with DI.AppStart, TO1.HelloRV or
/// TO2.HelloDeviceProbe.
pub proof fn lemma_run_entry_points(t: MessageType)
    ensures
        valid_previous_message(t, None) <==> (t == MessageType::DIAppStart || t
            == MessageType::TO1HelloRV || t == MessageType::TO2HelloDeviceProbe),
{
}

/// The DI and TO1 exchanges are accepted message by message.
pub proof fn lemma_di_and_to1_runs_valid()
    ensures
        is_valid_run(di_run()),
        is_valid_run(to1_run()),
{
    assert forall|i: int| 1 <= i < di_run().len() implies #[trigger] valid_previous_message(
        di_run()[i],
        Some(di_run()[i - 1]),
    ) by {}
    assert forall|i: int| 1 <= i < to1_run().len() implies #[trigger] valid_previous_message(
        to1_run()[i],
        Some(to1_run()[i - 1]),
    ) by {}
}

proof fn lemma_ov_entry_rounds_shape(n: nat)
    ensures
        ov_entry_rounds(n).len() == 2 * n,
        forall|i: int|
            0 <= i < 2 * n ==> #[trigger] ov_entry_rounds(n)[i] == (if i % 2 == 0 {
                MessageType::TO2GetOVNextEntry20
            } else {
                MessageType::TO2OVNextEntry20
            }),
    decreases n,
{
    if n > 0 {
        lemma_ov_entry_rounds_shape((n - 1) as nat);
    }
}

proof fn lemma_service_info_rounds_shape(k: nat)
    ensures
        service_info_rounds(k).len() == 2 * k,
        forall|i: int|
            0 <= i < 2 * k ==> #[trigger] service_info_rounds(k)[i] == (if i % 2 == 0 {
                MessageType::TO2DeviceSvcInfo20
            } else {
                MessageType::TO2OwnerSvcInfo20
            }),
    decreases k,
{
    if k > 0 {
        lemma_service_info_rounds_shape((k - 1) as nat);
    }
}

/// Every TO2 exchange in the documented flow is accepted message by
/// message, whatever the number of voucher entries and ServiceInfo rounds.
pub proof fn lemma_to2_run_valid(n: nat, k: nat)
    ensures
        is_valid_run(to2_run(n, k)),
{
    lemma_ov_entry_rounds_shape(n);
    lemma_service_info_rounds_shape(k);
    let r = to2_run(n, k);
    let a = 4 + 2 * n;
    let b = a + 2 + 2 * k;
    assert(r.len() == b + 2);
    assert forall|i: int| 0 <= i < r.len() implies #[trigger] r[i] == (if i < 4 {
        seq![
            MessageType::TO2HelloDeviceProbe,
            MessageType::TO2HelloDeviceAck20,
            MessageType::TO2ProveDevice20,
            MessageType::TO2ProveOVHdr20,
        ][i]
    } else if i < a {
        ov_entry_rounds(n)[i - 4]
    } else if i < a + 2 {
        seq![MessageType::TO2DeviceSvcInfoRdy20, MessageType::TO2SetupDevice20][i - a]
    } else if i < b {
        service_info_rounds(k)[i - a - 2]
    } else {
        seq![MessageType::TO2Done20, MessageType::TO2DoneAck20][i - b]
    }) by {}
    assert forall|i: int| 1 <= i < r.len() implies #[trigger] valid_previous_message(
        r[i],
        Some(r[i - 1]),
    ) by {
        assert(r[i] == r[i]);
        assert(r[i - 1] == r[i - 1]);
        if 4 <= i - 1 && i - 1 < a {
            assert(ov_entry_rounds(n)[i - 1 - 4] == ov_entry_rounds(n)[i - 1 - 4]);
        }
        if 4 <= i && i < a {
            assert(ov_entry_rounds(n)[i - 4] == ov_entry_rounds(n)[i - 4]);
        }
        if a + 2 <= i - 1 && i - 1 < b {
            assert(service_info_rounds(k)[i - 1 - a - 2] == service_info_rounds(k)[i - 1 - a - 2]);
        }
        if a + 2 <= i && i < b {
            assert(service_info_rounds(k)[i - a - 2] == service_info_rounds(k)[i - a - 2]);
        }
    }
}

/// Once a message must travel encrypted, so must every message that may
/// follow it: the channel never falls back to plain text.
pub proof fn lemma_encryption_is_sticky(t: MessageType, prev: MessageType)
    requires
        valid_previous_message(t, Some(prev)),
        required_encryption(prev) == EncryptionRequirement::MustBeEncrypted,
    ensures
        required_encryption(t) == EncryptionRequirement::MustBeEncrypted,
{
}

} // verus!
