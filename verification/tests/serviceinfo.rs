use fdo_data_formats::bmo::BmoFinalizeStep;
use fdo_data_formats::cbor_value::CborValue;
use fdo_data_formats::serviceinfo::{
    find_available_modules, DeviceServiceInfoState, EntryOutcome, RoundDecision,
    ServiceInfoRounds, MAX_SERVICE_INFO_LOOPS,
};
use fdo_data_formats::serviceinfo_names::{
    FdoServiceInfoModule, ServiceInfoModule, StandardServiceInfoModule,
};

fn bmo() -> ServiceInfoModule {
    ServiceInfoModule::Fdo(FdoServiceInfoModule::Bmo)
}

#[test]
fn available_modules_are_devmod_and_bmo() {
    let ms = find_available_modules().unwrap();
    assert_eq!(ms.len(), 2);
    assert_eq!(ms[0].to_string(), "devmod");
    assert_eq!(ms[1].to_string(), "fdo.bmo");
}

#[test]
fn requests_for_inactive_modules_are_refused() {
    let mut st = DeviceServiceInfoState::new();
    let r = st.process_serviceinfo_entry(&bmo(), "image-data-0", &CborValue::Bytes(vec![1]));
    assert!(r.is_err());
    let r = st.process_serviceinfo_entry(&bmo(), "active", &CborValue::Integer(1));
    assert!(r.is_err());
}

#[test]
fn activate_transfer_and_finish() {
    let mut st = DeviceServiceInfoState::new();
    assert!(matches!(
        st.process_serviceinfo_entry(&bmo(), "active", &CborValue::Bool(true)),
        Ok(EntryOutcome::Replies(ref r)) if r.is_empty()
    ));
    assert!(matches!(
        st.process_serviceinfo_entry(&bmo(), "active", &CborValue::Bool(true)),
        Ok(EntryOutcome::Replies(_))
    ));
    assert_eq!(st.active_modules.len(), 1);
    let begin = CborValue::Pairs(vec![
        (CborValue::Integer(-1), CborValue::Text("efi".to_string())),
        (CborValue::Integer(3), CborValue::Bool(true)),
    ]);
    match st.process_serviceinfo_entry(&bmo(), "image-begin", &begin).unwrap() {
        EntryOutcome::Replies(r) => {
            assert_eq!(r.len(), 1);
            assert_eq!(r[0].key, "image-ack");
        }
        _ => panic!("image-begin answers with replies"),
    }
    st.process_serviceinfo_entry(&bmo(), "image-data-0", &CborValue::Bytes(vec![1, 2])).unwrap();
    st.process_serviceinfo_entry(&bmo(), "image-data-1", &CborValue::Bytes(vec![3])).unwrap();
    assert_eq!(st.bmo.data, vec![1, 2, 3]);
    assert!(st
        .process_serviceinfo_entry(&bmo(), "image-data-2", &CborValue::Text("x".to_string()))
        .is_err());
    match st.process_serviceinfo_entry(&bmo(), "image-end", &CborValue::Null).unwrap() {
        EntryOutcome::Finalize(BmoFinalizeStep::Complete(c)) => {
            assert_eq!(c.status, 0);
            assert_eq!(c.writes[0].contents, vec![1, 2, 3]);
        }
        _ => panic!("image-end finishes the transfer"),
    }
    assert!(st.bmo.begin.is_none());
    assert!(st.bmo.data.is_empty());
    assert!(matches!(
        st.process_serviceinfo_entry(&bmo(), "unknown-key", &CborValue::Null),
        Ok(EntryOutcome::Replies(ref r)) if r.is_empty()
    ));
    st.process_serviceinfo_entry(&bmo(), "active", &CborValue::Bool(false)).unwrap();
    assert!(st.active_modules.is_empty());
    assert!(st.process_serviceinfo_entry(&bmo(), "set", &CborValue::Array(vec![])).is_err());
}

#[test]
fn other_active_modules_are_ignored() {
    let mut st = DeviceServiceInfoState::new();
    let devmod = ServiceInfoModule::Standard(StandardServiceInfoModule::DevMod);
    st.process_serviceinfo_entry(&devmod, "active", &CborValue::Bool(true)).unwrap();
    assert!(matches!(
        st.process_serviceinfo_entry(&devmod, "anything", &CborValue::Null),
        Ok(EntryOutcome::Replies(ref r)) if r.is_empty()
    ));
}

#[test]
fn rounds_stop_at_the_limit() {
    let mut rounds = ServiceInfoRounds::new();
    assert!(rounds.sends_devmod());
    assert!(rounds.may_send().is_ok());
    assert_eq!(rounds.owner_answered(false, false), RoundDecision::Continue);
    assert!(!rounds.sends_devmod());
    assert_eq!(rounds.owner_answered(true, false), RoundDecision::Finished(false));
    rounds.loop_num = MAX_SERVICE_INFO_LOOPS;
    assert!(rounds.may_send().is_err());
}
