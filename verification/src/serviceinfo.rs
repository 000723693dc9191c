//! The device's side of the ServiceInfo rounds: which modules the owner
//! activated, and what each entry the owner sends asks of the device.
//! Sending and receiving the rounds, writing files and fetching payloads
//! are left to the caller, which performs what the step functions here
//! return.

use vstd::prelude::*;

use crate::bmo::{
    ack_value_ok, bios_params_of, bios_params_view, bmo_handle_set, finalize_step_ok,
    is_image_begin_of, map_bytes, map_text, opt_slice, opt_text, BiosParam, BmoFinalizeStep,
    BmoImageBegin, BmoInProgress, BmoReply,
};
use crate::cbor_value::{map_get_int_key, CborValue};
use crate::serviceinfo_names::{
    FdoServiceInfoModule, ServiceInfoModule, ServiceInfoModuleView, StandardServiceInfoModule,
};
use crate::text::{bytes_start_with, str_eq, str_starts_with};
use crate::Error;

verus! {

/// The modules this device implements: `devmod` and `fdo.bmo`.
pub fn find_available_modules() -> (r: Result<Vec<ServiceInfoModule>, Error>)
    ensures
        r matches Ok(ms) && ms@.len() == 2 && ms@[0]@ == ServiceInfoModuleView::Standard(
            StandardServiceInfoModule::DevMod,
        ) && ms@[1]@ == ServiceInfoModuleView::Fdo(FdoServiceInfoModule::Bmo),
{
    let mut v: Vec<ServiceInfoModule> = Vec::new();
    v.push(ServiceInfoModule::Standard(StandardServiceInfoModule::DevMod));
    v.push(ServiceInfoModule::Fdo(FdoServiceInfoModule::Bmo));
    Ok(v)
}

/// The set of module values a list holds.
pub open spec fn module_set(ms: Seq<ServiceInfoModule>) -> Set<ServiceInfoModuleView> {
    Set::new(|v: ServiceInfoModuleView| exists|i: int| 0 <= i < ms.len() && (#[trigger] ms[i])@ == v)
}

/// No module occurs twice.
pub open spec fn modules_distinct(ms: Seq<ServiceInfoModule>) -> bool {
    forall|i: int, j: int| 0 <= i < j < ms.len() ==> (#[trigger] ms[i])@ != (#[trigger] ms[j])@
}

fn find_module(ms: &Vec<ServiceInfoModule>, m: &ServiceInfoModule) -> (r: Option<usize>)
    ensures
        r matches Some(i) ==> i < ms@.len() && ms@[i as int]@ == m@,
        r is None ==> forall|i: int| 0 <= i < ms@.len() ==> ms@[i]@ != m@,
{
    let mut i: usize = 0;
    while i < ms.len()
        invariant
            i <= ms@.len(),
            forall|k: int| 0 <= k < i ==> ms@[k]@ != m@,
        decreases ms@.len() - i,
    {
        if ms[i].same_module(m) {
            return Some(i);
        }
        i = i + 1;
    }
    None
}

/// What one entry from the owner asks of the device.
#[derive(Debug)]
pub enum EntryOutcome {
    /// Send these replies (possibly none).
    Replies(Vec<BmoReply>),
    /// image-end: carry out this step of finishing the transfer.
    Finalize(BmoFinalizeStep),
    /// `set`: record these parameters, each with a `response`.
    SetParams(Vec<BiosParam>),
}

/// The device's ServiceInfo state: the modules the owner activated (each
/// once) and the BMO transfer under way.
#[derive(Debug)]
pub struct DeviceServiceInfoState {
    pub active_modules: Vec<ServiceInfoModule>,
    pub bmo: BmoInProgress,
}

/// The hash an image-end value carries: bytes under key 1 of a map.
pub open spec fn image_end_hash(value: CborValue) -> Option<Seq<u8>> {
    match value {
        CborValue::Pairs(p) => map_bytes(p@, 1),
        _ => None,
    }
}

/// The hash an image-end value carries is the byte string its map holds
/// under the integer key 1 (the first pair with that key); a map without
/// that key, or with something else under it, carries none.
pub proof fn lemma_image_end_hash_key(pairs: Vec<(CborValue, CborValue)>, i: int)
    requires
        0 <= i <= pairs@.len(),
        forall|j: int| 0 <= j < i ==> pairs@[j].0 != CborValue::Integer(1),
        i < pairs@.len() ==> pairs@[i].0 == CborValue::Integer(1),
    ensures
        i == pairs@.len() ==> image_end_hash(CborValue::Pairs(pairs)) is None,
        i < pairs@.len() ==> image_end_hash(CborValue::Pairs(pairs)) == (match pairs@[i].1 {
            CborValue::Bytes(b) => Some(b@),
            _ => None,
        }),
{
    crate::cbor_value::lemma_first_int_key_index(pairs@, 1);
    match crate::cbor_value::first_int_key_index(pairs@, 1) {
        Some(k) => {
            if k < i {
                assert(pairs@[k].0 != CborValue::Integer(1));
            }
            if k > i {
                assert(pairs@[i].0 != CborValue::Integer(1));
            }
        },
        None => {
            if i < pairs@.len() {
                assert(pairs@[i].0 != CborValue::Integer(1));
            }
        },
    }
}

fn image_end_hash_exec(value: &CborValue) -> (r: Option<&[u8]>)
    ensures
        crate::bmo::opt_slice(r) == image_end_hash(*value),
{
    match value {
        CborValue::Pairs(p) => match map_get_int_key(p, 1) {
            Some(CborValue::Bytes(b)) => Some(b.as_slice()),
            _ => None,
        },
        _ => None,
    }
}

impl DeviceServiceInfoState {
    /// The well-formedness of the state: no module is active twice.
    pub open spec fn wf(&self) -> bool {
        modules_distinct(self.active_modules@)
    }

    /// The modules that are active.
    pub open spec fn active(&self) -> Set<ServiceInfoModuleView> {
        module_set(self.active_modules@)
    }

    /// No module active, no transfer under way.
    pub fn new() -> (r: DeviceServiceInfoState)
        ensures
            r.wf(),
            r.active() == Set::<ServiceInfoModuleView>::empty(),
            r.bmo.begin is None,
            r.bmo.data@.len() == 0,
    {
        let r = DeviceServiceInfoState { active_modules: Vec::new(), bmo: BmoInProgress::new() };
        assert(r.active() =~= Set::<ServiceInfoModuleView>::empty());
        r
    }

    /// Mark `m` active.
    pub fn activate(&mut self, m: &ServiceInfoModule)
        requires
            old(self).wf(),
        ensures
            final(self).wf(),
            final(self).active() == old(self).active().insert(m@),
            final(self).bmo == old(self).bmo,
    {
        match find_module(&self.active_modules, m) {
            Some(_) => {
                assert(self.active() =~= old(self).active().insert(m@));
            },
            None => {
                let ghost before = self.active_modules@;
                self.active_modules.push(m.duplicate());
                proof {
                    let n = before.len() as int;
                    assert(self.active_modules@[n]@ == m@);
                    assert forall|v: ServiceInfoModuleView| self.active().contains(v) <==> old(self).active().insert(m@).contains(v) by {
                        if self.active().contains(v) && v != m@ {
                            let k = choose|k: int|
                                0 <= k < self.active_modules@.len() && (
                                #[trigger] self.active_modules@[k])@ == v;
                            assert(k != n);
                            assert(before[k] == self.active_modules@[k]);
                        }
                        if old(self).active().contains(v) {
                            let k = choose|k: int| 0 <= k < before.len() && (#[trigger] before[k])@ == v;
                            assert(before[k] == self.active_modules@[k]);
                        }
                    }
                    assert(self.active() =~= old(self).active().insert(m@));
                }
            },
        }
    }

    /// Mark `m` inactive.
    pub fn deactivate(&mut self, m: &ServiceInfoModule)
        requires
            old(self).wf(),
        ensures
            final(self).wf(),
            final(self).active() == old(self).active().remove(m@),
            final(self).bmo == old(self).bmo,
    {
        match find_module(&self.active_modules, m) {
            Some(i) => {
                let ghost before = self.active_modules@;
                self.active_modules.remove(i);
                proof {
                    assert forall|v: ServiceInfoModuleView| self.active().contains(v) <==> old(self).active().remove(m@).contains(v) by {
                        if self.active().contains(v) {
                            let k = choose|k: int|
                                0 <= k < self.active_modules@.len() && (
                                #[trigger] self.active_modules@[k])@ == v;
                            if k < i {
                                assert(before[k] == self.active_modules@[k]);
                            } else {
                                assert(before[k + 1] == self.active_modules@[k]);
                            }
                        }
                        if old(self).active().remove(m@).contains(v) {
                            let k = choose|k: int| 0 <= k < before.len() && (#[trigger] before[k])@ == v;
                            if k < i {
                                assert(before[k] == self.active_modules@[k]);
                            } else {
                                assert(k != i);
                                assert(before[k] == self.active_modules@[k - 1]);
                            }
                        }
                    }
                    assert(self.active() =~= old(self).active().remove(m@));
                }
            },
            None => {
                assert(self.active() =~= old(self).active().remove(m@));
            },
        }
    }
}


/// The ServiceInfo module `fdo.bmo`.
pub open spec fn is_bmo(m: ServiceInfoModuleView) -> bool {
    m == ServiceInfoModuleView::Fdo(FdoServiceInfoModule::Bmo)
}

/// The hash algorithm the transfer under way named.
pub open spec fn begin_hash_alg(b: Option<BmoImageBegin>) -> Option<Seq<char>> {
    match b {
        Some(x) => opt_text(x.hash_alg),
        None => None,
    }
}

/// Whether a key names an image-data chunk (its UTF-8 bytes begin with
/// those of `image-data`).
pub open spec fn is_image_data_key(key: Seq<char>) -> bool {
    bytes_start_with(vstd::utf8::encode_utf8(key), vstd::utf8::encode_utf8("image-data"@))
}

pub open spec fn no_replies(r: Result<EntryOutcome, Error>) -> bool {
    r matches Ok(EntryOutcome::Replies(rs)) && rs@.len() == 0
}

fn begin_hash_alg_exec(b: &Option<BmoImageBegin>) -> (r: Option<String>)
    ensures
        opt_text(r) == begin_hash_alg(*b),
{
    match b {
        Some(x) => match &x.hash_alg {
            Some(a) => Some(a.clone()),
            None => None,
        },
        None => None,
    }
}

impl DeviceServiceInfoState {
    /// Handle one entry `(module, key, value)` from the owner.
    ///
    /// `active` turns a module on or off (its value must be a boolean). Any
    /// other key for a module that is not active is refused. For `fdo.bmo`:
    /// `image-begin` starts a transfer (acknowledged when it asks so),
    /// `image-data*` appends a chunk of bytes, `image-end` finishes the
    /// transfer (and leaves none under way), `set` reads BIOS parameters.
    /// Other keys, and other modules, are ignored.
    pub fn process_serviceinfo_entry(&mut self, module: &ServiceInfoModule, key: &str, value: &CborValue) -> (r: Result<
        EntryOutcome,
        Error,
    >)
        requires
            old(self).wf(),
        ensures
            final(self).wf(),
            key@ == "active"@ ==> {
                &&& r is Ok <==> value is Bool
                &&& value matches CborValue::Bool(on) ==> {
                    &&& no_replies(r)
                    &&& final(self).active() == (if *on {
                        old(self).active().insert(module@)
                    } else {
                        old(self).active().remove(module@)
                    })
                    &&& final(self).bmo == old(self).bmo
                }
            },
            key@ != "active"@ && !old(self).active().contains(module@) ==> r is Err,
            key@ != "active"@ && old(self).active().contains(module@) && !is_bmo(module@) ==> (
            no_replies(r) && final(self).active() == old(self).active() && final(self).bmo
                == old(self).bmo),
            key@ != "active"@ && old(self).active().contains(module@) && is_bmo(module@) ==> {
                &&& r is Ok ==> final(self).active() == old(self).active()
                &&& key@ == "image-begin"@ ==> {
                    &&& r is Ok <==> (value matches CborValue::Pairs(p) && map_text(p@, -1) is Some)
                    &&& r is Ok ==> (value matches CborValue::Pairs(p) && final(self).bmo.begin matches Some(
                        b,
                    ) && is_image_begin_of(b, p@) && final(self).bmo.data == old(self).bmo.data && (
                    r matches Ok(EntryOutcome::Replies(rs)) && (if b.require_ack {
                        rs@.len() == 1 && rs@[0].key@ == "image-ack"@ && ack_value_ok(
                            rs@[0].value,
                            true,
                            None,
                            None,
                        )
                    } else {
                        rs@.len() == 0
                    })))
                }
                &&& (key@ != "image-begin"@ && is_image_data_key(key@)) ==> {
                    &&& r is Ok <==> value is Bytes
                    &&& value matches CborValue::Bytes(chunk) ==> (no_replies(r) && final(self).bmo.data@ == old(self).bmo.data@ + chunk@ && final(self).bmo.begin == old(self).bmo.begin)
                }
                &&& (key@ == "image-end"@ && !is_image_data_key(key@)) ==> {
                    &&& r matches Ok(o) ==> (o matches EntryOutcome::Finalize(step)
                        && finalize_step_ok(
                        old(self).bmo.begin,
                        old(self).bmo.data@,
                        image_end_hash(*value),
                        begin_hash_alg(old(self).bmo.begin),
                        Ok(step),
                    ) && final(self).bmo.begin is None && final(self).bmo.data@.len() == 0)
                    &&& r matches Err(e) ==> finalize_step_ok(
                        old(self).bmo.begin,
                        old(self).bmo.data@,
                        image_end_hash(*value),
                        begin_hash_alg(old(self).bmo.begin),
                        Err(e),
                    )
                }
                &&& (key@ == "set"@ && !is_image_data_key(key@)) ==> {
                    &&& r is Ok <==> value is Array
                    &&& r is Ok ==> (value matches CborValue::Array(items) && r matches Ok(
                        EntryOutcome::SetParams(ps),
                    ) && bios_params_view(ps@) == bios_params_of(items@) && final(self).bmo
                        == old(self).bmo)
                }
                &&& (key@ != "image-begin"@ && !is_image_data_key(key@) && key@ != "image-end"@
                    && key@ != "set"@) ==> (no_replies(r) && final(self).bmo == old(self).bmo)
            },
    {
        proof {
            reveal_strlit("active");
            reveal_strlit("image-begin");
            reveal_strlit("image-end");
            reveal_strlit("set");
        }
        if str_eq(key, "active") {
            let on = match value {
                CborValue::Bool(b) => *b,
                _ => {
                    return Err(Error::new("Error parsing active value"));
                },
            };
            if on {
                self.activate(module);
            } else {
                self.deactivate(module);
            }
            return Ok(EntryOutcome::Replies(Vec::new()));
        }
        if find_module(&self.active_modules, module).is_none() {
            return Err(Error::new("Non-activated module got request"));
        }
        proof {
            assert(old(self).active().contains(module@) ==> exists|i: int|
                0 <= i < self.active_modules@.len() && (#[trigger] self.active_modules@[i])@
                    == module@);
        }
        let bmo = ServiceInfoModule::Fdo(FdoServiceInfoModule::Bmo);
        if !module.same_module(&bmo) {
            return Ok(EntryOutcome::Replies(Vec::new()));
        }
        if str_eq(key, "image-begin") {
            let begin = BmoInProgress::parse_image_begin(value)?;
            let mut replies: Vec<BmoReply> = Vec::new();
            if begin.require_ack {
                BmoInProgress::send_ack(&mut replies, true, None, None);
            }
            self.bmo.begin = Some(begin);
            Ok(EntryOutcome::Replies(replies))
        } else if str_starts_with(key, "image-data") {
            let chunk = match value {
                CborValue::Bytes(b) => b,
                _ => {
                    return Err(Error::new("Error parsing BMO image-data chunk"));
                },
            };
            crate::csr::append_bytes(&mut self.bmo.data, chunk.as_slice());
            Ok(EntryOutcome::Replies(Vec::new()))
        } else if str_eq(key, "image-end") {
            let hash_bytes = image_end_hash_exec(value);
            let hash_alg = begin_hash_alg_exec(&self.bmo.begin);
            let step = self.bmo.finalize(hash_bytes, &hash_alg);
            self.bmo = BmoInProgress::new();
            match step {
                Ok(s) => Ok(EntryOutcome::Finalize(s)),
                Err(e) => Err(e),
            }
        } else if str_eq(key, "set") {
            let params = bmo_handle_set(value)?;
            Ok(EntryOutcome::SetParams(params))
        } else {
            Ok(EntryOutcome::Replies(Vec::new()))
        }
    }
}


// ------------------------------------------------------------------
// The rounds
// ------------------------------------------------------------------

/// The most ServiceInfo rounds the device takes part in.
pub const MAX_SERVICE_INFO_LOOPS: u32 = 1000;

/// Progress through the ServiceInfo rounds.
#[derive(Debug)]
pub struct ServiceInfoRounds {
    pub loop_num: u32,
    pub reboot_required: bool,
}

/// What to do after the owner answered a round.
#[derive(Debug, PartialEq, Eq, Structural)]
pub enum RoundDecision {
    /// The owner is done: the rounds end, saying whether a reboot is
    /// required.
    Finished(bool),
    /// Send the next round.
    Continue,
}

impl ServiceInfoRounds {
    /// Before the first round.
    pub fn new() -> (r: ServiceInfoRounds)
        ensures
            r.loop_num == 0,
            !r.reboot_required,
    {
        ServiceInfoRounds { loop_num: 0, reboot_required: false }
    }

    /// Whether the device may send another round: it stops after
    /// `MAX_SERVICE_INFO_LOOPS` rounds.
    pub fn may_send(&self) -> (r: Result<(), Error>)
        ensures
            r is Ok <==> self.loop_num < MAX_SERVICE_INFO_LOOPS,
    {
        if self.loop_num < MAX_SERVICE_INFO_LOOPS {
            Ok(())
        } else {
            Err(Error::new("Maximum number of ServiceInfo loops (1000) exceeded"))
        }
    }

    /// The first round carries the device's `devmod` description.
    pub fn sends_devmod(&self) -> (r: bool)
        ensures
            r == (self.loop_num == 0),
    {
        self.loop_num == 0
    }

    /// Take the owner's answer to the round just sent: `owner_done` when it
    /// said it is done, `reboot` when handling its entries asked for a
    /// reboot. A reboot once asked for stays asked for.
    pub fn owner_answered(&mut self, owner_done: bool, reboot: bool) -> (r: RoundDecision)
        requires
            old(self).loop_num < MAX_SERVICE_INFO_LOOPS,
        ensures
            owner_done ==> r == RoundDecision::Finished(old(self).reboot_required) && *final(self)
                == *old(self),
            !owner_done ==> r == RoundDecision::Continue && final(self).loop_num == old(
                self).loop_num + 1 && final(self).reboot_required == (old(self).reboot_required
                || reboot),
    {
        if owner_done {
            return RoundDecision::Finished(self.reboot_required);
        }
        if !self.reboot_required {
            self.reboot_required = reboot;
        }
        self.loop_num = self.loop_num + 1;
        RoundDecision::Continue
    }
}

} // verus!
