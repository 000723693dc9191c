# fdo-data-formats

The device side of FIDO Device Onboard (FDO 2.0), with its behaviour stated
in Verus contracts and proved.

- `src/` is the library. It holds the protocol constants and their wire
  numbers, the CBOR reader and writer the formats are built on, the value
  types and messages with their encodings, ownership vouchers (reading,
  writing, extending and walking their entry chain), the COSE
  domain-separation strings, certificate-request framing and signing, the
  device credential Device Initialization writes (the file record, read
  back before TO1 and TO2, and the TPM NV records), the TPM-held
  credential, the ServiceInfo and Bare Metal Onboarding handling, COSE_Sign1
  signature checks and the owner's proofs in TO2, the key exchange and
  session-key derivation, and the device's decisions in Device
  Initialization, TO1 and TO2. Calls into OpenSSL, `pem` and `regex` go
  through small trusted wrappers whose contracts say what those crates
  document.
- `tests/` exercises the library on concrete values.
- `app/` is the program around it: HTTP, the TPM, files, signing with the
  device's keys, the text of IP addresses, random numbers, and the retry
  loop.
