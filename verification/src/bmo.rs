//! The device side of the Bare Metal Onboarding ServiceInfo module
//! (`fdo.bmo`): which modules are active, how an image transfer proceeds
//! (image-begin, image-data-N, image-end), what the device answers, and
//! which files it asks to be written. Writing the files and fetching a
//! meta payload are left to the caller, which performs the actions the
//! functions here return.

use vstd::prelude::*;

use crate::cbor_scan::{map_items, parts_view, read_text, split_map, text_bytes_of};
use crate::cbor_value::{map_get_int, map_get_int_key, CborValue};
use crate::cose::{find_key, first_value_for_key};
use crate::constants::HashType;
use crate::ownershipvoucher::openssl_digest;
use crate::serviceinfo_names::{
    module_name, FdoServiceInfoModule, ServiceInfoModule, ServiceInfoModuleView,
};
use crate::text::{
    bool_to_text, bytes_eq, bytes_start_with, concat, decimal, i128_to_decimal, signed_decimal, str_eq,
    str_starts_with, u128_to_decimal,
};
use crate::Error;

verus! {

/// Image bytes travel inside the ServiceInfo messages.
pub const BMO_DELIVERY_MODE_INLINE: u64 = 0;

/// The owner sends a URL the platform fetches the image from.
pub const BMO_DELIVERY_MODE_URL: u64 = 1;

/// The owner sends the URL of a meta payload naming the image.
pub const BMO_DELIVERY_MODE_META_URL: u64 = 2;

// ------------------------------------------------------------------
// image-begin
// ------------------------------------------------------------------

/// What image-begin announces.
#[derive(Debug)]
pub struct BmoImageBegin {
    pub image_type: String,
    pub total_size: Option<u64>,
    pub hash_alg: Option<String>,
    pub require_ack: bool,
    pub delivery_mode: u64,
    pub name: Option<String>,
    pub version: Option<String>,
    pub description: Option<String>,
    pub boot_args: Option<String>,
    pub url: Option<String>,
    pub tls_ca: Option<Vec<u8>>,
    pub expected_hash: Option<Vec<u8>>,
    pub meta_signer: Option<Vec<u8>>,
}

/// The text under integer key `k` of a map, if it is a text.
pub open spec fn map_text(pairs: Seq<(CborValue, CborValue)>, k: int) -> Option<Seq<char>> {
    match map_get_int(pairs, k as i128) {
        Some(CborValue::Text(s)) => Some(s@),
        _ => None,
    }
}

/// The integer under key `k`, as a `u64` (the low 64 bits).
pub open spec fn map_u64(pairs: Seq<(CborValue, CborValue)>, k: int) -> Option<u64> {
    match map_get_int(pairs, k as i128) {
        Some(CborValue::Integer(n)) => Some(n as u64),
        _ => None,
    }
}

pub open spec fn map_bool(pairs: Seq<(CborValue, CborValue)>, k: int) -> Option<bool> {
    match map_get_int(pairs, k as i128) {
        Some(CborValue::Bool(b)) => Some(b),
        _ => None,
    }
}

pub open spec fn map_bytes(pairs: Seq<(CborValue, CborValue)>, k: int) -> Option<Seq<u8>> {
    match map_get_int(pairs, k as i128) {
        Some(CborValue::Bytes(b)) => Some(b@),
        _ => None,
    }
}

pub open spec fn opt_text(o: Option<String>) -> Option<Seq<char>> {
    match o {
        Some(s) => Some(s@),
        None => None,
    }
}

pub open spec fn opt_bytes(o: Option<Vec<u8>>) -> Option<Seq<u8>> {
    match o {
        Some(b) => Some(b@),
        None => None,
    }
}

/// `b` is what the image-begin map `pairs` announces: the image type under
/// -1, total size 0, hash algorithm 1, acknowledgement flag 3 (default
/// false), delivery mode -6 (default inline), name -3, version -4,
/// description -5, boot arguments -2, URL -7, TLS CA -8, expected hash -9
/// and meta signer -10.
pub open spec fn is_image_begin_of(b: BmoImageBegin, pairs: Seq<(CborValue, CborValue)>) -> bool {
    &&& map_text(pairs, -1) == Some(b.image_type@)
    &&& b.total_size == map_u64(pairs, 0)
    &&& opt_text(b.hash_alg) == map_text(pairs, 1)
    &&& b.require_ack == (map_bool(pairs, 3) == Some(true))
    &&& b.delivery_mode == (match map_u64(pairs, -6) {
        Some(m) => m,
        None => BMO_DELIVERY_MODE_INLINE,
    })
    &&& opt_text(b.name) == map_text(pairs, -3)
    &&& opt_text(b.version) == map_text(pairs, -4)
    &&& opt_text(b.description) == map_text(pairs, -5)
    &&& opt_text(b.boot_args) == map_text(pairs, -2)
    &&& opt_text(b.url) == map_text(pairs, -7)
    &&& opt_bytes(b.tls_ca) == map_bytes(pairs, -8)
    &&& opt_bytes(b.expected_hash) == map_bytes(pairs, -9)
    &&& opt_bytes(b.meta_signer) == map_bytes(pairs, -10)
}

fn get_text(pairs: &Vec<(CborValue, CborValue)>, k: i128) -> (r: Option<String>)
    ensures
        opt_text(r) == map_text(pairs@, k as int),
{
    match map_get_int_key(pairs, k) {
        Some(CborValue::Text(s)) => Some(s.clone()),
        _ => None,
    }
}

fn get_u64(pairs: &Vec<(CborValue, CborValue)>, k: i128) -> (r: Option<u64>)
    ensures
        r == map_u64(pairs@, k as int),
{
    match map_get_int_key(pairs, k) {
        Some(CborValue::Integer(n)) => Some(*n as u64),
        _ => None,
    }
}

fn get_bool(pairs: &Vec<(CborValue, CborValue)>, k: i128) -> (r: Option<bool>)
    ensures
        r == map_bool(pairs@, k as int),
{
    match map_get_int_key(pairs, k) {
        Some(CborValue::Bool(b)) => Some(*b),
        _ => None,
    }
}

fn get_bytes(pairs: &Vec<(CborValue, CborValue)>, k: i128) -> (r: Option<Vec<u8>>)
    ensures
        opt_bytes(r) == map_bytes(pairs@, k as int),
{
    match map_get_int_key(pairs, k) {
        Some(CborValue::Bytes(b)) => {
            let c = crate::ownershipvoucher::copy_bytes(b);
            Some(c)
        },
        _ => None,
    }
}

impl BmoInProgress {
    /// Read an image-begin value: a map with integer keys that holds at
    /// least the image type.
    pub fn parse_image_begin(value: &CborValue) -> (r: Result<BmoImageBegin, Error>)
        ensures
            r is Ok <==> (value matches CborValue::Pairs(p) && map_text(p@, -1) is Some),
            r matches Ok(b) ==> (value matches CborValue::Pairs(p) && is_image_begin_of(b, p@)),
    {
        let map = match value {
            CborValue::Pairs(m) => m,
            _ => {
                return Err(Error::new("BMO image-begin: expected CBOR map"));
            },
        };
        let image_type = match get_text(map, -1) {
            Some(t) => t,
            None => {
                return Err(Error::new("BMO image-begin: missing required field -1 (image_type)"));
            },
        };
        let require_ack = match get_bool(map, 3) {
            Some(b) => b,
            None => false,
        };
        let delivery_mode = match get_u64(map, -6) {
            Some(m) => m,
            None => BMO_DELIVERY_MODE_INLINE,
        };
        Ok(BmoImageBegin {
            image_type,
            total_size: get_u64(map, 0),
            hash_alg: get_text(map, 1),
            require_ack,
            delivery_mode,
            name: get_text(map, -3),
            version: get_text(map, -4),
            description: get_text(map, -5),
            boot_args: get_text(map, -2),
            url: get_text(map, -7),
            tls_ca: get_bytes(map, -8),
            expected_hash: get_bytes(map, -9),
            meta_signer: get_bytes(map, -10),
        })
    }
}


// ------------------------------------------------------------------
// Replies and files
// ------------------------------------------------------------------

/// One ServiceInfo entry of the `fdo.bmo` module the device sends back.
#[derive(Debug)]
pub struct BmoReply {
    pub key: String,
    pub value: CborValue,
}

/// A file the device is asked to write, named relative to its BMO output
/// directory.
#[derive(Debug)]
pub struct BmoFileWrite {
    pub file_name: String,
    pub contents: Vec<u8>,
}

/// The UTF-8 bytes of a text.
pub open spec fn utf8(s: Seq<char>) -> Seq<u8> {
    vstd::utf8::encode_utf8(s)
}

/// File writes as name and contents.
pub open spec fn writes_view(w: Seq<BmoFileWrite>) -> Seq<(Seq<char>, Seq<u8>)> {
    w.map_values(|x: BmoFileWrite| (x.file_name@, x.contents@))
}

/// The `[accepted, code?, message?]` value of an image-ack.
pub open spec fn ack_value_ok(v: CborValue, accepted: bool, code: Option<u64>, msg: Option<Seq<char>>) -> bool {
    &&& v matches CborValue::Array(items)
    &&& items@.len() == 1 + (if code is Some { 1int } else { 0 }) + (if msg is Some { 1int } else { 0 })
    &&& items@[0] == CborValue::Bool(accepted)
    &&& code matches Some(c) ==> items@[1] == CborValue::Integer(c as i128)
    &&& msg matches Some(m) ==> (items@[items@.len() - 1] matches CborValue::Text(t) && t@ == m)
}

/// The `[status, message]` value of an image-result or a set response.
pub open spec fn status_value_ok(v: CborValue, status: u64, msg: Seq<char>) -> bool {
    &&& v matches CborValue::Array(items)
    &&& items@.len() == 2
    &&& items@[0] == CborValue::Integer(status as i128)
    &&& items@[1] matches CborValue::Text(t) && t@ == msg
}

fn push_write(writes: &mut Vec<BmoFileWrite>, file_name: &str, contents: Vec<u8>)
    ensures
        writes_view(final(writes)@) == writes_view(old(writes)@).push((file_name@, contents@)),
{
    let w = BmoFileWrite { file_name: String::from_str(file_name), contents };
    writes.push(w);
    proof {
        assert(writes_view(writes@) =~= writes_view(old(writes)@).push((file_name@, contents@)));
    }
}

fn text_bytes(s: &str) -> (r: Vec<u8>)
    ensures
        r@ == utf8(s@),
{
    s.as_bytes_vec()
}

/// `key=value` and a line break, when there is a value.
pub open spec fn opt_line(key: Seq<char>, v: Option<Seq<char>>) -> Seq<char> {
    match v {
        Some(t) => key + "="@ + t + "\n"@,
        None => Seq::empty(),
    }
}

fn push_opt_line(s: &mut String, key: &str, v: &Option<String>)
    ensures
        final(s)@ == old(s)@ + opt_line(key@, opt_text(*v)),
{
    match v {
        Some(t) => {
            s.append(key);
            s.append("=");
            s.append(t.as_str());
            s.append("\n");
        },
        None => {
            assert(old(s)@ + opt_line(key@, opt_text(*v)) =~= old(s)@);
        },
    }
}

/// The write of the boot arguments, which every completed transfer makes
/// when image-begin carried them.
pub open spec fn boot_args_writes(b: BmoImageBegin) -> Seq<(Seq<char>, Seq<u8>)> {
    match b.boot_args {
        Some(a) => seq![("boot_args"@, utf8(a@))],
        None => Seq::empty(),
    }
}

fn push_boot_args(writes: &mut Vec<BmoFileWrite>, b: &BmoImageBegin)
    ensures
        writes_view(final(writes)@) == writes_view(old(writes)@) + boot_args_writes(*b),
{
    match &b.boot_args {
        Some(a) => {
            push_write(writes, "boot_args", text_bytes(a.as_str()));
        },
        None => {
            assert(writes_view(old(writes)@) + boot_args_writes(*b) =~= writes_view(old(writes)@));
        },
    }
}

// ------------------------------------------------------------------
// Finishing a transfer
// ------------------------------------------------------------------

/// What a finished transfer asks of the device: files to write, in order,
/// then an image-result with `status` and `message`.
#[derive(Debug)]
pub struct BmoCompletion {
    pub writes: Vec<BmoFileWrite>,
    pub status: u64,
    pub message: String,
}

/// A completion as files, status and message.
pub open spec fn completion_view(c: BmoCompletion) -> (Seq<(Seq<char>, Seq<u8>)>, u64, Seq<char>) {
    (writes_view(c.writes@), c.status, c.message@)
}

/// The next step after image-end.
#[derive(Debug)]
pub enum BmoFinalizeStep {
    /// The transfer is complete.
    Complete(BmoCompletion),
    /// The meta payload at `url` must be fetched and handed to
    /// `finish_meta_url` with the image-begin it belongs to.
    FetchMeta { begin: BmoImageBegin, url: String },
}

/// The text of a URL announced in image-begin, `(none)` when missing.
pub open spec fn url_or_none(b: BmoImageBegin) -> Seq<char> {
    match b.url {
        Some(u) => u@,
        None => "(none)"@,
    }
}

/// The contents of `bmo-url.txt`.
pub open spec fn url_info_text(b: BmoImageBegin) -> Seq<char> {
    "delivery_mode=1\nurl="@ + url_or_none(b) + "\nimage_type="@ + b.image_type@ + "\n"@
        + opt_line("name"@, opt_text(b.name)) + opt_line("hash_alg"@, opt_text(b.hash_alg))
}

/// What a URL delivery completes with.
pub open spec fn url_completion(b: BmoImageBegin) -> (Seq<(Seq<char>, Seq<u8>)>, u64, Seq<char>) {
    let info = seq![("bmo-url.txt"@, utf8(url_info_text(b)))];
    let hash = match b.expected_hash {
        Some(h) => seq![("expected_hash.bin"@, h@)],
        None => Seq::empty(),
    };
    let ca = match b.tls_ca {
        Some(c) => seq![("tls_ca.der"@, c@)],
        None => Seq::empty(),
    };
    (info + hash + ca + boot_args_writes(b), 0u64, "URL received: "@ + url_or_none(b))
}

/// The name the hash algorithm of an inline image goes by (SHA-256 when
/// none is named).
pub open spec fn inline_hash_alg(hash_alg: Option<Seq<char>>) -> Seq<char> {
    match hash_alg {
        Some(a) => a,
        None => "sha256"@,
    }
}

/// The hash type a name selects, if it is a supported one.
pub open spec fn hash_type_named(alg: Seq<char>) -> Option<HashType> {
    if alg == "sha256"@ {
        Some(HashType::Sha256)
    } else if alg == "sha384"@ {
        Some(HashType::Sha384)
    } else {
        None
    }
}

/// What an inline delivery whose hash (if any) matched completes with.
pub open spec fn inline_completion(b: BmoImageBegin, data: Seq<u8>) -> (Seq<(Seq<char>, Seq<u8>)>, u64, Seq<char>) {
    let name = match b.name {
        Some(n) => n@,
        None => "bmo-image.bin"@,
    };
    (
        seq![(name, data)] + boot_args_writes(b),
        0u64,
        "Image received: "@ + decimal(data.len()) + " bytes"@,
    )
}

/// What a delivery in a mode the device does not know completes with.
pub open spec fn unsupported_mode_completion(b: BmoImageBegin) -> (Seq<(Seq<char>, Seq<u8>)>, u64, Seq<char>) {
    (boot_args_writes(b), 2u64, "Unsupported delivery mode: "@ + decimal(b.delivery_mode as nat))
}

/// The completion of an inline transfer, given the digest of the data
/// when one is needed.
pub open spec fn inline_outcome(
    b: BmoImageBegin,
    data: Seq<u8>,
    hash_bytes: Option<Seq<u8>>,
    hash_alg: Option<Seq<char>>,
) -> (Seq<(Seq<char>, Seq<u8>)>, u64, Seq<char>) {
    match hash_bytes {
        None => inline_completion(b, data),
        Some(expected) => match hash_type_named(inline_hash_alg(hash_alg)) {
            None => (Seq::empty(), 2u64, "Unsupported hash algorithm: "@ + inline_hash_alg(hash_alg)),
            Some(t) => if openssl_digest(t, data) == Some(expected) {
                inline_completion(b, data)
            } else {
                (Seq::empty(), 2u64, "Hash verification failed"@)
            },
        },
    }
}

/// Whether an inline outcome returned early, before the boot arguments are
/// written and the data is dropped.
pub open spec fn inline_returns_early(
    data: Seq<u8>,
    hash_bytes: Option<Seq<u8>>,
    hash_alg: Option<Seq<char>>,
) -> bool {
    match hash_bytes {
        None => false,
        Some(expected) => match hash_type_named(inline_hash_alg(hash_alg)) {
            None => true,
            Some(t) => openssl_digest(t, data) != Some(expected),
        },
    }
}

pub open spec fn opt_slice(o: Option<&[u8]>) -> Option<Seq<u8>> {
    match o {
        Some(s) => Some(s@),
        None => None,
    }
}

/// What finishing a transfer gives, for the transfer `begin` (if any) with
/// the image bytes `data`, the hash image-end carried and the algorithm
/// image-begin named. An error comes exactly without a transfer and for a
/// meta-URL delivery without a URL; an inline image whose digest OpenSSL
/// could not compute fails its hash check.
pub open spec fn finalize_step_ok(
    begin: Option<BmoImageBegin>,
    data: Seq<u8>,
    hash_bytes: Option<Seq<u8>>,
    hash_alg: Option<Seq<char>>,
    r: Result<BmoFinalizeStep, Error>,
) -> bool {
    match begin {
        None => r is Err,
        Some(b) => {
            &&& r is Err ==> (b.delivery_mode == BMO_DELIVERY_MODE_META_URL && b.url is None)
            &&& (b.delivery_mode == BMO_DELIVERY_MODE_META_URL && b.url is None) ==> r is Err
            &&& (b.delivery_mode == BMO_DELIVERY_MODE_INLINE) ==> (r matches Ok(step) ==> (
            step matches BmoFinalizeStep::Complete(c) && completion_view(c) == inline_outcome(
                b,
                data,
                hash_bytes,
                hash_alg,
            )))
            &&& (b.delivery_mode == BMO_DELIVERY_MODE_URL) ==> (r matches Ok(
                BmoFinalizeStep::Complete(c),
            ) && completion_view(c) == url_completion(b))
            &&& (b.delivery_mode == BMO_DELIVERY_MODE_META_URL && b.url is Some) ==> (r matches Ok(
                BmoFinalizeStep::FetchMeta { begin: fb, url },
            ) && fb == b && Some(url) == b.url)
            &&& (b.delivery_mode != BMO_DELIVERY_MODE_INLINE && b.delivery_mode
                != BMO_DELIVERY_MODE_URL && b.delivery_mode != BMO_DELIVERY_MODE_META_URL) ==> (
            r matches Ok(BmoFinalizeStep::Complete(c)) && completion_view(c)
                == unsupported_mode_completion(b))
        },
    }
}

/// A transfer in progress: what image-begin announced, and the image bytes
/// received so far.
#[derive(Debug)]
pub struct BmoInProgress {
    pub begin: Option<BmoImageBegin>,
    pub data: Vec<u8>,
}

impl BmoInProgress {
    /// No transfer under way.
    pub fn new() -> (r: BmoInProgress)
        ensures
            r.begin is None,
            r.data@.len() == 0,
    {
        BmoInProgress { begin: None, data: Vec::new() }
    }

    /// Append an image-ack `[accepted, code?, message?]` to `si_out`.
    pub fn send_ack(si_out: &mut Vec<BmoReply>, accepted: bool, code: Option<u64>, msg: Option<&str>)
        ensures
            final(si_out)@.len() == old(si_out)@.len() + 1,
            final(si_out)@.subrange(0, old(si_out)@.len() as int) == old(si_out)@,
            final(si_out)@.last().key@ == "image-ack"@,
            ack_value_ok(
                final(si_out)@.last().value,
                accepted,
                code,
                match msg {
                    Some(m) => Some(m@),
                    None => None,
                },
            ),
    {
        let mut ack: Vec<CborValue> = Vec::new();
        ack.push(CborValue::Bool(accepted));
        if let Some(c) = code {
            ack.push(CborValue::Integer(c as i128));
        }
        if let Some(m) = msg {
            ack.push(CborValue::Text(String::from_str(m)));
        }
        si_out.push(BmoReply { key: String::from_str("image-ack"), value: CborValue::Array(ack) });
        assert(si_out@.subrange(0, old(si_out)@.len() as int) =~= old(si_out)@);
    }

    /// Append an image-result `[status, message]` to `si_out`.
    pub fn send_result(si_out: &mut Vec<BmoReply>, status: u64, msg: &str)
        ensures
            final(si_out)@.len() == old(si_out)@.len() + 1,
            final(si_out)@.subrange(0, old(si_out)@.len() as int) == old(si_out)@,
            final(si_out)@.last().key@ == "image-result"@,
            status_value_ok(final(si_out)@.last().value, status, msg@),
    {
        let mut result: Vec<CborValue> = Vec::new();
        result.push(CborValue::Integer(status as i128));
        result.push(CborValue::Text(String::from_str(msg)));
        si_out.push(BmoReply { key: String::from_str("image-result"), value: CborValue::Array(result) });
        assert(si_out@.subrange(0, old(si_out)@.len() as int) =~= old(si_out)@);
    }
}


fn url_completion_exec(b: &BmoImageBegin) -> (r: BmoCompletion)
    ensures
        completion_view(r) == url_completion(*b),
{
    let url: &str = match &b.url {
        Some(u) => u.as_str(),
        None => "(none)",
    };
    let mut info = String::from_str("delivery_mode=1\nurl=");
    info.append(url);
    info.append("\nimage_type=");
    info.append(b.image_type.as_str());
    info.append("\n");
    push_opt_line(&mut info, "name", &b.name);
    push_opt_line(&mut info, "hash_alg", &b.hash_alg);
    let mut writes: Vec<BmoFileWrite> = Vec::new();
    push_write(&mut writes, "bmo-url.txt", text_bytes(info.as_str()));
    if let Some(h) = &b.expected_hash {
        push_write(&mut writes, "expected_hash.bin", crate::ownershipvoucher::copy_bytes(h));
    }
    if let Some(c) = &b.tls_ca {
        push_write(&mut writes, "tls_ca.der", crate::ownershipvoucher::copy_bytes(c));
    }
    push_boot_args(&mut writes, b);
    let message = crate::text::concat("URL received: ", url);
    let r = BmoCompletion { writes, status: 0, message };
    proof {
        let u = url_completion(*b);
        assert(writes_view(r.writes@) =~= u.0);
    }
    r
}

fn inline_completion_exec(b: &BmoImageBegin, data: &Vec<u8>) -> (r: BmoCompletion)
    ensures
        completion_view(r) == inline_completion(*b, data@),
{
    let name: &str = match &b.name {
        Some(n) => n.as_str(),
        None => "bmo-image.bin",
    };
    let mut writes: Vec<BmoFileWrite> = Vec::new();
    push_write(&mut writes, name, crate::ownershipvoucher::copy_bytes(data));
    push_boot_args(&mut writes, b);
    let mut message = String::from_str("Image received: ");
    let n = u128_to_decimal(data.len() as u128);
    message.append(n.as_str());
    message.append(" bytes");
    let r = BmoCompletion { writes, status: 0, message };
    proof {
        assert(writes_view(r.writes@) =~= inline_completion(*b, data@).0);
    }
    r
}

fn early_completion(status: u64, message: String) -> (r: BmoCompletion)
    ensures
        completion_view(r) == (Seq::<(Seq<char>, Seq<u8>)>::empty(), status, message@),
{
    let r = BmoCompletion { writes: Vec::new(), status, message };
    assert(writes_view(r.writes@) =~= Seq::<(Seq<char>, Seq<u8>)>::empty());
    r
}

impl BmoInProgress {
    /// Finish the transfer at image-end. `hash_bytes` is the hash image-end
    /// carried, `hash_alg` the algorithm image-begin named.
    ///
    /// Without a transfer under way this fails. An inline image is checked
    /// against the hash (SHA-256 unless image-begin named another
    /// algorithm) and stored under its name; a URL delivery records the
    /// URL; a meta-URL delivery asks for its payload to be fetched (and
    /// fails without a URL); another mode is answered as unsupported. The
    /// transfer is taken out of `self`, and its data dropped unless the
    /// hash check answered first.
    pub fn finalize(&mut self, hash_bytes: Option<&[u8]>, hash_alg: &Option<String>) -> (r: Result<
        BmoFinalizeStep,
        Error,
    >)
        ensures
            final(self).begin is None,
            finalize_step_ok(old(self).begin, old(self).data@, opt_slice(hash_bytes), opt_text(*hash_alg), r),
            old(self).begin matches Some(b) ==> r is Ok ==> final(self).data@ == (if b.delivery_mode
                == BMO_DELIVERY_MODE_INLINE && inline_returns_early(
                old(self).data@,
                opt_slice(hash_bytes),
                opt_text(*hash_alg),
            ) {
                old(self).data@
            } else {
                Seq::empty()
            }),
    {
        let begin = match self.begin.take() {
            Some(b) => b,
            None => {
                return Err(Error::new("BMO image-end without image-begin"));
            },
        };
        if begin.delivery_mode == BMO_DELIVERY_MODE_INLINE {
            if let Some(expected) = hash_bytes {
                let alg: &str = match hash_alg {
                    Some(a) => a.as_str(),
                    None => "sha256",
                };
                let hash_type = if str_eq(alg, "sha256") {
                    HashType::Sha256
                } else if str_eq(alg, "sha384") {
                    HashType::Sha384
                } else {
                    let msg = crate::text::concat("Unsupported hash algorithm: ", alg);
                    return Ok(BmoFinalizeStep::Complete(early_completion(2, msg)));
                };
                let matches = match crate::types::Hash::from_data(hash_type, self.data.as_slice()) {
                    Ok(digest) => bytes_eq(digest.value.as_slice(), expected),
                    Err(_) => false,
                };
                if !matches {
                    return Ok(
                        BmoFinalizeStep::Complete(
                            early_completion(2, String::from_str("Hash verification failed")),
                        ),
                    );
                }
            }
            let c = inline_completion_exec(&begin, &self.data);
            self.data.clear();
            Ok(BmoFinalizeStep::Complete(c))
        } else if begin.delivery_mode == BMO_DELIVERY_MODE_URL {
            let c = url_completion_exec(&begin);
            self.data.clear();
            Ok(BmoFinalizeStep::Complete(c))
        } else if begin.delivery_mode == BMO_DELIVERY_MODE_META_URL {
            let url = match &begin.url {
                Some(u) => u.clone(),
                None => {
                    return Err(Error::new("BMO meta-url: no URL in image-begin"));
                },
            };
            self.data.clear();
            Ok(BmoFinalizeStep::FetchMeta { begin, url })
        } else {
            let mut writes: Vec<BmoFileWrite> = Vec::new();
            push_boot_args(&mut writes, &begin);
            let n = u128_to_decimal(begin.delivery_mode as u128);
            let message = crate::text::concat("Unsupported delivery mode: ", n.as_str());
            let c = BmoCompletion { writes, status: 2, message };
            proof {
                assert(writes_view(c.writes@) =~= boot_args_writes(begin));
            }
            self.data.clear();
            Ok(BmoFinalizeStep::Complete(c))
        }
    }
}


/// The name an inline image is written under: the one image-begin gave,
/// else `bmo-image.bin`.
pub open spec fn inline_image_name(b: BmoImageBegin) -> Seq<char> {
    match b.name {
        Some(n) => n@,
        None => "bmo-image.bin"@,
    }
}

/// Finishing an inline transfer whose image-end carried a hash: the
/// transfer completes, and the hash is checked with the algorithm
/// image-begin named: "sha384" selects SHA-384, "sha256" (or no name)
/// SHA-256, and any other name is answered as unsupported. When the digest
/// of the data is the hash, the image is written under its name (first,
/// before any boot arguments) and status 0 reports its size; otherwise
/// status 2 says why and nothing is written.
pub proof fn lemma_inline_hash_check(
    b: BmoImageBegin,
    data: Seq<u8>,
    expected: Seq<u8>,
    hash_alg: Option<Seq<char>>,
    r: Result<BmoFinalizeStep, Error>,
)
    requires
        b.delivery_mode == BMO_DELIVERY_MODE_INLINE,
        finalize_step_ok(Some(b), data, Some(expected), hash_alg, r),
    ensures
        r matches Ok(BmoFinalizeStep::Complete(c)) && {
            let (writes, status, message) = completion_view(c);
            let supported = hash_alg is None || hash_alg == Some("sha256"@) || hash_alg == Some("sha384"@);
            &&& hash_alg == Some("sha384"@) ==> (status == 0 <==> openssl_digest(HashType::Sha384, data)
                == Some(expected))
            &&& (hash_alg is None || hash_alg == Some("sha256"@)) ==> (status == 0 <==> openssl_digest(
                HashType::Sha256,
                data,
            ) == Some(expected))
            &&& !supported ==> (status == 2 && writes.len() == 0 && message == "Unsupported hash algorithm: "@
                + hash_alg.unwrap())
            &&& (supported && status != 0) ==> (status == 2 && writes.len() == 0 && message
                == "Hash verification failed"@)
            &&& status == 0 ==> (writes.len() >= 1 && writes[0] == (inline_image_name(b), data) && message
                == "Image received: "@ + decimal(data.len()) + " bytes"@)
        },
{
    reveal_strlit("sha256");
    reveal_strlit("sha384");
    assert(r is Ok);
    let c = r.unwrap()->Complete_0;
    assert(completion_view(c) == inline_outcome(b, data, Some(expected), hash_alg));
    assert("sha384"@[3] != "sha256"@[3]);
    assert(hash_type_named("sha384"@) == Some(HashType::Sha384));
    assert(hash_type_named("sha256"@) == Some(HashType::Sha256));
    let (w, st, m) = inline_outcome(b, data, Some(expected), hash_alg);
    if st == 0 {
        assert(inline_outcome(b, data, Some(expected), hash_alg) == inline_completion(b, data));
        assert((seq![(inline_image_name(b), data)] + boot_args_writes(b))[0] == (inline_image_name(b), data));
    }
}

/// The text under the integer key `k` among the alternating keys and
/// values `items` of a meta payload map (the first such key), when the
/// value is a text string with valid UTF-8.
pub open spec fn meta_item_text(items: Seq<Seq<u8>>, k: int) -> Option<Seq<char>> {
    match first_value_for_key(items, k) {
        Some(v) => match text_bytes_of(v) {
            Some(b) => if vstd::utf8::valid_utf8(b) {
                Some(vstd::utf8::decode_utf8(b))
            } else {
                None
            },
            None => None,
        },
        None => None,
    }
}

/// The text under integer key `k` of a meta payload map, empty when
/// missing or not a text.
pub open spec fn meta_text_or_empty(items: Seq<Seq<u8>>, k: int) -> Seq<char> {
    match meta_item_text(items, k) {
        Some(t) => t,
        None => Seq::empty(),
    }
}

/// The contents of `bmo-meta-url.txt` for a meta payload map: image type
/// under 0, image URL 1, hash algorithm 3, boot arguments 5, name 6,
/// version 7 and description 8.
pub open spec fn meta_info_text(meta_url: Seq<char>, items: Seq<Seq<u8>>) -> Seq<char> {
    "delivery_mode=2\nmeta_url="@ + meta_url + "\nimage_type="@ + meta_text_or_empty(items, 0)
        + "\nimage_url="@ + meta_text_or_empty(items, 1) + "\n"@ + opt_line(
        "hash_alg"@,
        meta_item_text(items, 3),
    ) + opt_line("name"@, meta_item_text(items, 6)) + opt_line("version"@, meta_item_text(items, 7))
        + opt_line("description"@, meta_item_text(items, 8)) + opt_line(
        "boot_args"@,
        meta_item_text(items, 5),
    )
}

/// What a meta-URL delivery completes with, once the payload at
/// `meta_url` was fetched (`meta_bytes`) and read as the map with the
/// alternating keys and values `items`.
pub open spec fn meta_completion(
    b: BmoImageBegin,
    meta_url: Seq<char>,
    meta_bytes: Seq<u8>,
    items: Seq<Seq<u8>>,
) -> (Seq<(Seq<char>, Seq<u8>)>, u64, Seq<char>) {
    let signer = match b.meta_signer {
        Some(k) => seq![("meta_signer.cbor"@, k@)],
        None => Seq::empty(),
    };
    (
        seq![("bmo-meta-url.txt"@, utf8(meta_info_text(meta_url, items))), ("meta_payload.cbor"@, meta_bytes)]
            + signer + boot_args_writes(b),
        0u64,
        "Meta-URL resolved: image_url="@ + meta_text_or_empty(items, 1),
    )
}

fn meta_get_text(items: &Vec<Vec<u8>>, k: i128) -> (r: Option<String>)
    ensures
        opt_text(r) == meta_item_text(parts_view(items@), k as int),
{
    match find_key(items, k) {
        Some(i) => {
            let n: usize = items.len();
            assert(i + 1 < n);
            read_text(items[i + 1].as_slice())
        },
        None => None,
    }
}

fn meta_text(items: &Vec<Vec<u8>>, k: i128) -> (r: String)
    ensures
        r@ == meta_text_or_empty(parts_view(items@), k as int),
{
    match meta_get_text(items, k) {
        Some(t) => t,
        None => String::new(),
    }
}

impl BmoInProgress {
    /// Finish a meta-URL delivery: `meta_bytes` is what was fetched from the
    /// URL image-begin named; it must be one CBOR map.
    pub fn finish_meta_url(begin: &BmoImageBegin, meta_url: &str, meta_bytes: &[u8]) -> (r: Result<
        BmoCompletion,
        Error,
    >)
        ensures
            r is Ok <==> map_items(meta_bytes@) is Some,
            r matches Ok(c) ==> (map_items(meta_bytes@) matches Some(items) && completion_view(c)
                == meta_completion(*begin, meta_url@, meta_bytes@, items)),
    {
        let map = match split_map(meta_bytes) {
            Some(m) => m,
            None => {
                return Err(Error::new("BMO meta-url: expected CBOR map"));
            },
        };
        let image_type = meta_text(&map, 0);
        let image_url = meta_text(&map, 1);
        let hash_alg = meta_get_text(&map, 3);
        let boot_args = meta_get_text(&map, 5);
        let name = meta_get_text(&map, 6);
        let version = meta_get_text(&map, 7);
        let description = meta_get_text(&map, 8);
        let mut info = String::from_str("delivery_mode=2\nmeta_url=");
        info.append(meta_url);
        info.append("\nimage_type=");
        info.append(image_type.as_str());
        info.append("\nimage_url=");
        info.append(image_url.as_str());
        info.append("\n");
        push_opt_line(&mut info, "hash_alg", &hash_alg);
        push_opt_line(&mut info, "name", &name);
        push_opt_line(&mut info, "version", &version);
        push_opt_line(&mut info, "description", &description);
        push_opt_line(&mut info, "boot_args", &boot_args);
        let mut writes: Vec<BmoFileWrite> = Vec::new();
        push_write(&mut writes, "bmo-meta-url.txt", text_bytes(info.as_str()));
        push_write(&mut writes, "meta_payload.cbor", vstd::slice::slice_to_vec(meta_bytes));
        if let Some(k) = &begin.meta_signer {
            push_write(&mut writes, "meta_signer.cbor", crate::ownershipvoucher::copy_bytes(k));
        }
        push_boot_args(&mut writes, begin);
        let message = crate::text::concat("Meta-URL resolved: image_url=", image_url.as_str());
        let c = BmoCompletion { writes, status: 0, message };
        proof {
            assert(info@ =~= meta_info_text(meta_url@, parts_view(map@)));
            assert(writes_view(c.writes@) =~= meta_completion(*begin, meta_url@, meta_bytes@, parts_view(map@)).0);
        }
        Ok(c)
    }
}


// ------------------------------------------------------------------
// BIOS parameters (`set`)
// ------------------------------------------------------------------

/// One parameter of a `set` request: its position in the request, its
/// name, and its value as text. A value other than a text, a boolean, an
/// integer or null has no text here (`None`); the caller writes it as the
/// CBOR decoder's debug form of the value.
#[derive(Debug)]
pub struct BiosParam {
    pub index: usize,
    pub name: String,
    pub value: Option<String>,
}

/// The text of a parameter value, as `to_string` writes it.
pub open spec fn bios_value_text(v: CborValue) -> Option<Seq<char>> {
    match v {
        CborValue::Text(s) => Some(s@),
        CborValue::Bool(b) => Some(if b { "true"@ } else { "false"@ }),
        CborValue::Integer(i) => Some(signed_decimal(i as int)),
        CborValue::Null => Some("null"@),
        _ => None,
    }
}

/// The parameter the `i`-th item of a `set` request gives: an array of at
/// least two items whose first is a text. Other items are skipped.
pub open spec fn bios_param_at(i: int, item: CborValue) -> Seq<(int, Seq<char>, Option<Seq<char>>)> {
    match item {
        CborValue::Array(p) => if p@.len() >= 2 {
            match p@[0] {
                CborValue::Text(n) => seq![(i, n@, bios_value_text(p@[1]))],
                _ => Seq::empty(),
            }
        } else {
            Seq::empty()
        },
        _ => Seq::empty(),
    }
}

/// The parameters of the items of a `set` request, in order.
pub open spec fn bios_params_of(items: Seq<CborValue>) -> Seq<(int, Seq<char>, Option<Seq<char>>)>
    decreases items.len(),
{
    if items.len() == 0 {
        Seq::empty()
    } else {
        bios_params_of(items.drop_last()) + bios_param_at(items.len() - 1, items.last())
    }
}

pub open spec fn bios_params_view(ps: Seq<BiosParam>) -> Seq<(int, Seq<char>, Option<Seq<char>>)> {
    ps.map_values(|p: BiosParam| (p.index as int, p.name@, opt_text(p.value)))
}

fn bios_value_text_exec(v: &CborValue) -> (r: Option<String>)
    ensures
        opt_text(r) == bios_value_text(*v),
{
    match v {
        CborValue::Text(s) => Some(s.clone()),
        CborValue::Bool(b) => Some(bool_to_text(*b)),
        CborValue::Integer(i) => Some(i128_to_decimal(*i)),
        CborValue::Null => Some(String::from_str("null")),
        _ => None,
    }
}

/// Read a `set` request: an array of `[name, value]` items. Malformed items
/// are skipped; a value that is not an array is refused.
pub fn bmo_handle_set(value: &CborValue) -> (r: Result<Vec<BiosParam>, Error>)
    ensures
        r is Ok <==> value is Array,
        r matches Ok(ps) ==> (value matches CborValue::Array(items) && bios_params_view(ps@)
            == bios_params_of(items@)),
{
    let params = match value {
        CborValue::Array(a) => a,
        _ => {
            return Err(Error::new("BMO set: expected CBOR array"));
        },
    };
    let mut out: Vec<BiosParam> = Vec::new();
    let mut i: usize = 0;
    while i < params.len()
        invariant
            i <= params@.len(),
            bios_params_view(out@) == bios_params_of(params@.subrange(0, i as int)),
        decreases params@.len() - i,
    {
        let ghost before = out@;
        proof {
            let s = params@.subrange(0, i as int + 1);
            assert(s.drop_last() =~= params@.subrange(0, i as int));
            assert(s.last() == params@[i as int]);
        }
        match &params[i] {
            CborValue::Array(p) => {
                if p.len() >= 2 {
                    match &p[0] {
                        CborValue::Text(n) => {
                            let v = bios_value_text_exec(&p[1]);
                            out.push(BiosParam { index: i, name: n.clone(), value: v });
                            proof {
                                assert(bios_params_view(out@) =~= bios_params_view(before)
                                    + bios_param_at(i as int, params@[i as int]));
                            }
                        },
                        _ => {
                            assert(bios_params_view(out@) =~= bios_params_view(before)
                                + bios_param_at(i as int, params@[i as int]));
                        },
                    }
                } else {
                    assert(bios_params_view(out@) =~= bios_params_view(before) + bios_param_at(
                        i as int,
                        params@[i as int],
                    ));
                }
            },
            _ => {
                assert(bios_params_view(out@) =~= bios_params_view(before) + bios_param_at(
                    i as int,
                    params@[i as int],
                ));
            },
        }
        i = i + 1;
    }
    assert(params@.subrange(0, params@.len() as int) =~= params@);
    Ok(out)
}

/// The line a parameter adds to the `bios_params` file (without its line
/// break).
pub fn bios_param_line(name: &str, value_text: &str) -> (r: String)
    ensures
        r@ == name@ + "="@ + value_text@,
{
    let mut s = String::from_str(name);
    s.append("=");
    s.append(value_text);
    s
}

/// The `response` the device sends for a parameter it set:
/// `[0, "Set name=value"]`.
pub fn bios_param_response(name: &str, value_text: &str) -> (r: BmoReply)
    ensures
        r.key@ == "response"@,
        status_value_ok(r.value, 0, "Set "@ + name@ + "="@ + value_text@),
{
    let mut msg = String::from_str("Set ");
    msg.append(name);
    msg.append("=");
    msg.append(value_text);
    let mut items: Vec<CborValue> = Vec::new();
    items.push(CborValue::Integer(0));
    items.push(CborValue::Text(msg));
    BmoReply { key: String::from_str("response"), value: CborValue::Array(items) }
}

} // verus!
