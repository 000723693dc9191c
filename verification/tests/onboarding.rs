use fdo_data_formats::constants::TransportProtocol;
use fdo_data_formats::messages::v20::to1::HelloRVAck;
use fdo_data_formats::onboarding::{
    check_hello_rv_ack, eat_payload, get_to2_urls, hello_rv_for, interpret_rendezvous_directive,
    prove_device_payload, rendezvous_hosts,
    rendezvous_client_urls, to1d_addresses, to2_start, to2_step, ErrorCode, RendezvousInterpretedDirective, RendezvousProtocolValue, To2Action, To2Event,
    To2State, TO2AddressEntry,
};
use fdo_data_formats::constants::HashType;
use fdo_data_formats::types::{CipherSuite, Guid, KexSuite, Nonce, RendezvousDirective, SigInfo};

fn nonce(b: u8) -> Nonce {
    Nonce::new(vec![b; 16])
}

#[test]
fn to2_successful_run() {
    let (st, probe) = to2_start(Guid::new([1; 16]), vec![5; 16]);
    assert_eq!(probe.hash_types, vec![-16, -43]);
    let (st, a) = to2_step(st, To2Event::HelloAck { nonce_prep: nonce(7) });
    assert!(matches!(a, To2Action::SendProveDevice { ref nonce_prep } if nonce_prep.0 == vec![7; 16]));
    let (st, a) = to2_step(
        st,
        To2Event::ProveOvHdr {
            nonce_echo: nonce(7),
            num_entries: 2,
            hmac_valid: true,
            pubkey_hash_valid: true,
        },
    );
    assert!(matches!(a, To2Action::RequestEntry(ref g) if g.entry_num == 0));
    let (st, a) = to2_step(st, To2Event::Entry { entry_num: 0 });
    assert!(matches!(a, To2Action::RequestEntry(ref g) if g.entry_num == 1));
    let (st, a) = to2_step(st, To2Event::Entry { entry_num: 1 });
    assert!(matches!(a, To2Action::CheckVoucher));
    let (st, a) = to2_step(st, To2Event::VoucherChecked { valid: true });
    assert!(matches!(a, To2Action::SendSvcInfoRdy));
    let (st, a) = to2_step(st, To2Event::SetupDevice { nonce_setup: nonce(9) });
    assert!(matches!(a, To2Action::RunServiceInfo));
    let (st, a) = to2_step(st, To2Event::ServiceInfoDone);
    assert!(matches!(a, To2Action::SendDone { ref nonce_setup } if nonce_setup.0 == vec![9; 16]));
    let (st, a) = to2_step(st, To2Event::DoneAck { nonce_echo: nonce(7) });
    assert!(matches!(a, To2Action::Complete));
    assert!(matches!(st, To2State::Finished));
}

#[test]
fn to2_failures() {
    let s = To2State::AwaitProveOvHdr { nonce_prep: nonce(7) };
    let (st, a) = to2_step(
        s,
        To2Event::ProveOvHdr {
            nonce_echo: nonce(8),
            num_entries: 2,
            hmac_valid: true,
            pubkey_hash_valid: true,
        },
    );
    assert!(matches!(a, To2Action::Fail(_)));
    assert!(matches!(st, To2State::Failed));
    let s = To2State::AwaitProveOvHdr { nonce_prep: nonce(7) };
    let (_, a) = to2_step(
        s,
        To2Event::ProveOvHdr {
            nonce_echo: nonce(7),
            num_entries: 0,
            hmac_valid: true,
            pubkey_hash_valid: true,
        },
    );
    assert!(matches!(a, To2Action::Fail(_)));
    let s = To2State::AwaitEntry { nonce_prep: nonce(7), next: 1, total: 3 };
    let (_, a) = to2_step(s, To2Event::Entry { entry_num: 2 });
    assert!(matches!(a, To2Action::Fail(_)));
    let s = To2State::AwaitDoneAck { nonce_prep: nonce(7) };
    let (_, a) = to2_step(s, To2Event::DoneAck { nonce_echo: nonce(1) });
    assert!(matches!(a, To2Action::Fail(_)));
    let (_, a) = to2_step(To2State::AwaitHelloAck, To2Event::ServiceInfoDone);
    assert!(matches!(a, To2Action::Fail(_)));
}

#[test]
fn to1_hello_and_ack_check() {
    let h = hello_rv_for(Guid::new([3; 16]));
    assert_eq!(h.a_signature_info.sig_type, -35);
    assert!(h.a_signature_info.info.is_empty());
    let ack = HelloRVAck {
        nonce4: nonce(4),
        b_signature_info: SigInfo::new(-35, vec![]),
        capability_flags: vec![2],
        vendor_unique: None,
    };
    assert_eq!(check_hello_rv_ack(&ack).unwrap().0, vec![4; 16]);
    let bad = HelloRVAck {
        nonce4: nonce(4),
        b_signature_info: SigInfo::new(-7, vec![]),
        capability_flags: vec![2],
        vendor_unique: None,
    };
    let e = check_hello_rv_ack(&bad).unwrap_err();
    assert_eq!(e.e_code, ErrorCode::InvalidMessageError);
    assert_eq!(e.e_code.code(), 101);
    assert_eq!(e.e_string, "Unsupported sig type returned");
}

#[test]
fn to2_urls_from_addresses() {
    let entries = vec![
        TO2AddressEntry {
            ip: Some("10.0.0.1".to_string()),
            dns: Some("owner.example".to_string()),
            port: 8043,
            protocol: TransportProtocol::Https,
        },
        TO2AddressEntry {
            ip: Some("10.0.0.2".to_string()),
            dns: None,
            port: 80,
            protocol: TransportProtocol::Tcp,
        },
        TO2AddressEntry { ip: Some("10.0.0.3".to_string()), dns: None, port: 80, protocol: TransportProtocol::Http },
    ];
    assert_eq!(
        get_to2_urls(&entries),
        vec![
            "https://owner.example:8043".to_string(),
            "https://10.0.0.1:8043".to_string(),
            "http://10.0.0.3:80".to_string()
        ]
    );
    assert!(get_to2_urls(&[]).is_empty());
}

fn rv_entry(protocol: RendezvousProtocolValue) -> RendezvousInterpretedDirective {
    RendezvousInterpretedDirective {
        urls: vec!["http://rv.example:8040".to_string(), "http://10.0.0.1:8040".to_string()],
        protocol,
        bypass: false,
        wifi_ssid: None,
        user_input: false,
        delay: 0,
    }
}

#[test]
fn rendezvous_client_urls_accepts_http_only() {
    let ok = rendezvous_client_urls(&rv_entry(RendezvousProtocolValue::Http)).unwrap();
    assert_eq!(ok, vec!["http://rv.example:8040".to_string(), "http://10.0.0.1:8040".to_string()]);
    assert!(rendezvous_client_urls(&rv_entry(RendezvousProtocolValue::Https)).is_ok());
    let e = rendezvous_client_urls(&rv_entry(RendezvousProtocolValue::Tcp)).unwrap_err();
    assert_eq!(e.0, "Non-HTTP(S) protocol is not implemented");
    let mut bypass = rv_entry(RendezvousProtocolValue::Http);
    bypass.bypass = true;
    bypass.user_input = true;
    assert_eq!(rendezvous_client_urls(&bypass).unwrap_err().0, "Rendezvous Bypass is not yet implemented");
    let mut wifi = rv_entry(RendezvousProtocolValue::Http);
    wifi.wifi_ssid = Some("net".to_string());
    assert_eq!(
        rendezvous_client_urls(&wifi).unwrap_err().0,
        "Rendezvous WiFi configuration is not yet implemented"
    );
    let mut input = rv_entry(RendezvousProtocolValue::Http);
    input.user_input = true;
    assert_eq!(rendezvous_client_urls(&input).unwrap_err().0, "Rendezvous User Input is not yet implemented");
}

#[test]
fn eat_payload_bytes() {
    let eat = eat_payload(&Nonce::new(vec![0xaa, 0xbb]), &Guid::new([7u8; 16]));
    let mut expected = vec![0xa2, 0x0a, 0x42, 0xaa, 0xbb, 0x19, 0x01, 0x00, 0x51, 0x01];
    expected.extend_from_slice(&[7u8; 16]);
    assert_eq!(eat, expected);
}

#[test]
fn prove_device_payload_bytes() {
    let p = prove_device_payload(
        KexSuite::Ecdh384,
        CipherSuite::A256Gcm,
        &[1, 2],
        &Nonce::new(vec![3]),
        &fdo_data_formats::types::Hash::new(HashType::Sha384, vec![4]),
    );
    let mut expected = vec![0x85, 0x02];
    expected.extend_from_slice(&[CipherSuite::A256Gcm.code() as u8]);
    expected.extend_from_slice(&[0x42, 1, 2, 0x41, 3, 0x82, 0x38, 0x2a, 0x41, 4]);
    assert_eq!(p, expected);
}

#[test]
fn to1d_addresses_read() {
    // [[[h'7f000001', "owner", 8042, 3], [null, null, 443, 5]], [-43, h'00']]
    let mut d = vec![0x82, 0x82, 0x84, 0x44, 127, 0, 0, 1, 0x65];
    d.extend_from_slice(b"owner");
    d.extend_from_slice(&[0x19, 0x1f, 0x6a, 0x03, 0x84, 0xf6, 0xf6, 0x19, 0x01, 0xbb, 0x05]);
    d.extend_from_slice(&[0x82, 0x38, 0x2a, 0x41, 0x00]);
    let a = to1d_addresses(&d).unwrap();
    assert_eq!(a.len(), 2);
    assert_eq!(a[0].ip, Some(vec![127, 0, 0, 1]));
    assert_eq!(a[0].dns.as_deref(), Some("owner"));
    assert_eq!(a[0].port, 8042);
    assert_eq!(a[0].protocol, 3);
    assert_eq!(a[1].ip, None);
    assert_eq!(a[1].dns, None);
    assert_eq!(a[1].port, 443);
    assert_eq!(a[1].protocol, 5);
    let mut bad = d.clone();
    let at = bad.len() - 5;
    bad[at] = 0x81;
    assert!(to1d_addresses(&bad).is_err());
}

#[test]
fn rendezvous_directives_are_read() {
    let d = vec![
        RendezvousDirective { key: 3, value: vec![0x19, 0x1f, 0x90] },
        RendezvousDirective { key: 5, value: vec![0x64, b'h', b'o', b's', b't'] },
        RendezvousDirective { key: 12, value: vec![0x02] },
        RendezvousDirective { key: 2, value: vec![0x44, 127, 0, 0, 1] },
        RendezvousDirective { key: 13, value: vec![0x18, 30] },
    ];
    let hosts = rendezvous_hosts(&d).unwrap();
    assert_eq!(hosts.dns.as_deref(), Some("host"));
    assert_eq!(hosts.ip, Some(vec![127, 0, 0, 1]));
    assert_eq!(hosts.port, Some(8080));
    assert_eq!(hosts.protocol, RendezvousProtocolValue::Https);
    assert_eq!(hosts.delay, 30);
    assert!(!hosts.bypass && !hosts.user_input && hosts.wifi_ssid.is_none());
    let entry = interpret_rendezvous_directive(hosts, Some("127.0.0.1".to_string()));
    assert_eq!(entry.urls, vec!["https://host:8080".to_string(), "https://127.0.0.1:8080".to_string()]);
    assert_eq!(entry.delay, 30);

    let plain = vec![RendezvousDirective { key: 5, value: vec![0x61, b'r'] }, RendezvousDirective { key: 14, value: vec![0xf5] }];
    let hosts = rendezvous_hosts(&plain).unwrap();
    assert_eq!(hosts.protocol, RendezvousProtocolValue::Http);
    assert!(hosts.bypass);
    let entry = interpret_rendezvous_directive(hosts, None);
    assert_eq!(entry.urls, vec!["http://r:80".to_string()]);

    let owner_only = vec![RendezvousDirective { key: 1, value: vec![0xf6] }, RendezvousDirective { key: 5, value: vec![0x61, b'r'] }];
    assert!(rendezvous_hosts(&owner_only).is_none());
}
