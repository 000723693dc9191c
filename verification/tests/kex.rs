use fdo_data_formats::cose::{make_sign1, sign1_parts};
use fdo_data_formats::kex::{
    derive_session_key, device_session_key, make_key_exchange_param, read_key_exchange_param,
};
use openssl::bn::{BigNum, BigNumContext};
use openssl::derive::Deriver;
use openssl::ec::{EcGroup, EcKey};
use openssl::hash::MessageDigest;
use openssl::nid::Nid;
use openssl::pkey::{PKey, Private};
use openssl::sign::Signer;

fn p384_key() -> EcKey<Private> {
    EcKey::generate(&EcGroup::from_curve_name(Nid::SECP384R1).unwrap()).unwrap()
}

fn coords(key: &EcKey<Private>) -> (Vec<u8>, Vec<u8>) {
    let mut ctx = BigNumContext::new().unwrap();
    let mut x = BigNum::new().unwrap();
    let mut y = BigNum::new().unwrap();
    key.public_key().affine_coordinates(key.group(), &mut x, &mut y, &mut ctx).unwrap();
    (x.to_vec_padded(48).unwrap(), y.to_vec_padded(48).unwrap())
}

fn expected_key(secret: &[u8]) -> Vec<u8> {
    let mut input = vec![1u8];
    input.extend_from_slice(b"FIDO-KDF");
    input.push(0);
    input.extend_from_slice(b"AutomaticOnboardTunnel");
    input.extend_from_slice(&[0x01, 0x00]);
    let key = PKey::hmac(secret).unwrap();
    let mut signer = Signer::new(MessageDigest::sha384(), &key).unwrap();
    signer.update(&input).unwrap();
    signer.sign_to_vec().unwrap()[..32].to_vec()
}

#[test]
fn key_exchange_param_layout_and_reading() {
    let p = make_key_exchange_param(&[1, 2], &[3], &[]);
    assert_eq!(p, vec![0, 2, 1, 2, 0, 1, 3, 0, 0]);
    let (x, y, r) = read_key_exchange_param(&p).unwrap();
    assert_eq!((x, y, r), (vec![1, 2], vec![3], vec![]));
    assert!(read_key_exchange_param(&[0, 2, 1]).is_err());
    let mut long = p.clone();
    long.push(9);
    assert!(read_key_exchange_param(&long).is_err());
}

#[test]
fn session_key_is_the_first_kdf_block() {
    let key = derive_session_key(&[7u8; 48], &[1u8; 48], &[2u8; 48]).unwrap();
    let mut secret = vec![7u8; 48];
    secret.extend_from_slice(&[1u8; 48]);
    secret.extend_from_slice(&[2u8; 48]);
    assert_eq!(key, expected_key(&secret));
    assert_eq!(key.len(), 32);
}

#[test]
fn device_and_owner_agree_on_the_secret() {
    let device = p384_key();
    let owner = p384_key();
    let (ox, oy) = coords(&owner);
    let owner_random = vec![5u8; 48];
    let device_random = vec![6u8; 48];
    let xb = make_key_exchange_param(&ox, &oy, &owner_random);
    let key = device_session_key(&device.private_key_to_der().unwrap(), &device_random, &xb).unwrap();

    let owner_pkey = PKey::from_ec_key(owner).unwrap();
    let device_pub = PKey::from_ec_key(
        EcKey::from_public_key(device.group(), device.public_key()).unwrap(),
    )
    .unwrap();
    let mut deriver = Deriver::new(&owner_pkey).unwrap();
    deriver.set_peer(&device_pub).unwrap();
    let mut secret = deriver.derive_to_vec().unwrap();
    secret.extend_from_slice(&owner_random);
    secret.extend_from_slice(&device_random);
    assert_eq!(key, expected_key(&secret));
    assert!(device_session_key(&device.private_key_to_der().unwrap(), &device_random, &[0, 1]).is_err());
}

#[test]
fn sign1_layout_and_parts() {
    let cose = make_sign1(&[0xa1, 0x01, 0x26], &[9, 9], &[1, 2, 3]);
    assert_eq!(cose, vec![0xd2, 0x84, 0x43, 0xa1, 0x01, 0x26, 0xa0, 0x42, 9, 9, 0x43, 1, 2, 3]);
    let (p, pl, s) = sign1_parts(&cose).unwrap();
    assert_eq!((p, pl, s), (vec![0xa1, 0x01, 0x26], vec![9, 9], vec![1, 2, 3]));
    assert!(sign1_parts(&cose[1..3]).is_none());
}
