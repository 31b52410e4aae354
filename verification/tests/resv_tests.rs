use io_engine::child::ChildError;
use io_engine::resv::{
    argkey_plan, classify_verb_outcome, initial_register, parse_reservation_report,
    preempt_holder_plan, reservation_acquire_plan, reservation_protocol_enabled,
    resv_check_holder, resv_holder, NexusNvmeParams, NexusNvmePreemption, NvmeReservation,
    ProtocolStep, ResvVerb, VerbStatus,
};

fn raw_controller(cntlid: u16, holds: bool, rkey: u64, hostid: u128) -> Vec<u8> {
    let mut c = vec![0u8; 64];
    c[0..2].copy_from_slice(&cntlid.to_le_bytes());
    c[2] = if holds { 1 } else { 0 };
    c[8..16].copy_from_slice(&rkey.to_le_bytes());
    c[16..32].copy_from_slice(&hostid.to_le_bytes());
    c
}

fn raw_report(generation: u32, rtype: u8, ptpls: u8, ctrls: &[Vec<u8>]) -> Vec<u8> {
    let mut buf = vec![0u8; 64];
    buf[0..4].copy_from_slice(&generation.to_le_bytes());
    buf[4] = rtype;
    buf[5..7].copy_from_slice(&(ctrls.len() as u16).to_le_bytes());
    buf[9] = ptpls;
    for c in ctrls {
        buf.extend_from_slice(c);
    }
    buf
}

fn params(
    resv_type: NvmeReservation,
    resv_key: u64,
    preempt_key: Option<u64>,
    policy: NexusNvmePreemption,
) -> NexusNvmeParams {
    NexusNvmeParams { resv_type, resv_key, preempt_key, preempt_policy: policy }
}

const HOST_A: u128 = 0xaaaa_bbbb_cccc_dddd_1111_2222_3333_4444;
const HOST_OURS: u128 = 0x9999_8888_7777_6666_5555_4444_3333_2222;

#[test]
fn parse_report_reads_the_wire_layout() {
    let ctrls =
        vec![raw_controller(7, false, 0x1234, HOST_A), raw_controller(9, true, 0x2222, HOST_OURS)];
    let buf = raw_report(5, 1, 1, &ctrls);
    let rep = parse_reservation_report(&buf).unwrap();
    assert_eq!(rep.generation, 5);
    assert_eq!(rep.rtype, 1);
    assert_eq!(rep.regctl, 2);
    assert_eq!(rep.ptpls, 1);
    assert_eq!(rep.controllers.len(), 2);
    assert_eq!(rep.controllers[0].cntlid, 7);
    assert!(!rep.controllers[0].holds_reservation);
    assert_eq!(rep.controllers[0].rkey, 0x1234);
    assert_eq!(rep.controllers[0].hostid, HOST_A);
    assert_eq!(rep.controllers[1].cntlid, 9);
    assert!(rep.controllers[1].holds_reservation);
    assert_eq!(rep.controllers[1].rkey, 0x2222);
    assert_eq!(rep.controllers[1].hostid, HOST_OURS);
}

#[test]
fn parse_report_too_short_is_refused() {
    assert!(parse_reservation_report(&[0u8; 63]).is_none());
    assert!(parse_reservation_report(&[]).is_none());
}

#[test]
fn parse_report_clamps_to_buffer() {
    // The header announces two controllers but the buffer carries one.
    let ctrls = vec![raw_controller(7, true, 0x1, HOST_A)];
    let mut buf = raw_report(1, 1, 0, &ctrls);
    buf[5..7].copy_from_slice(&2u16.to_le_bytes());
    let rep = parse_reservation_report(&buf).unwrap();
    assert_eq!(rep.regctl, 2);
    assert_eq!(rep.controllers.len(), 1);
}

#[test]
fn holder_is_the_first_controller_with_status_set() {
    let ctrls =
        vec![raw_controller(7, false, 0x1234, HOST_A), raw_controller(9, true, 0x2222, HOST_OURS)];
    let rep = parse_reservation_report(&raw_report(1, 1, 0, &ctrls)).unwrap();
    assert_eq!(resv_holder(&rep), Some((1, 0x2222, HOST_OURS)));

    let none = parse_reservation_report(&raw_report(1, 0, 0, &[])).unwrap();
    assert_eq!(resv_holder(&none), None);
}

#[test]
fn check_holder_accepts_our_reservation() {
    // What the report shows right after a successful acquire.
    let ctrls = vec![raw_controller(1, true, 0x2222, HOST_OURS)];
    let rep = parse_reservation_report(&raw_report(3, 1, 0, &ctrls)).unwrap();
    let p = params(NvmeReservation::WriteExclusive, 0x2222, None, NexusNvmePreemption::Holder);
    assert!(resv_check_holder(&p, &rep, HOST_OURS).is_ok());
}

#[test]
fn check_holder_rejects_wrong_type() {
    let ctrls = vec![raw_controller(1, true, 0x2222, HOST_OURS)];
    let rep = parse_reservation_report(&raw_report(3, 2, 0, &ctrls)).unwrap();
    let p = params(NvmeReservation::WriteExclusive, 0x2222, None, NexusNvmePreemption::Holder);
    assert_eq!(
        resv_check_holder(&p, &rep, HOST_OURS).unwrap_err(),
        ChildError::ResvType { resv_type: 2 }
    );
}

#[test]
fn check_holder_rejects_unknown_type_code() {
    let rep = parse_reservation_report(&raw_report(3, 9, 0, &[])).unwrap();
    let p = params(NvmeReservation::WriteExclusive, 0x2222, None, NexusNvmePreemption::Holder);
    assert_eq!(
        resv_check_holder(&p, &rep, HOST_OURS).unwrap_err(),
        ChildError::ResvType { resv_type: 9 }
    );
}

#[test]
fn check_holder_shared_types_are_type_agnostic() {
    // Both in force and desired are all-registrants types: registration
    // is all that matters, even across the two shared codes.
    let rep = parse_reservation_report(&raw_report(3, 6, 0, &[])).unwrap();
    let p = params(
        NvmeReservation::WriteExclusiveAllRegs,
        0x2222,
        None,
        NexusNvmePreemption::Holder,
    );
    assert!(resv_check_holder(&p, &rep, HOST_OURS).is_ok());
}

#[test]
fn check_holder_reports_missing_holder() {
    let rep = parse_reservation_report(&raw_report(3, 1, 0, &[])).unwrap();
    let p = params(NvmeReservation::WriteExclusive, 0x2222, None, NexusNvmePreemption::Holder);
    assert_eq!(
        resv_check_holder(&p, &rep, HOST_OURS).unwrap_err(),
        ChildError::ResvNoHolder { resv_type: 1 }
    );
}

#[test]
fn check_holder_reports_foreign_owner() {
    let ctrls = vec![raw_controller(1, true, 0x1111, HOST_A)];
    let rep = parse_reservation_report(&raw_report(3, 1, 0, &ctrls)).unwrap();
    let p = params(NvmeReservation::WriteExclusive, 0x2222, None, NexusNvmePreemption::Holder);
    assert_eq!(
        resv_check_holder(&p, &rep, HOST_OURS).unwrap_err(),
        ChildError::Holder { hostid: HOST_A, resv_type: 1, resv_key: 0x1111 }
    );
}

#[test]
fn preempt_holder_with_a_foreign_owner() {
    // Existing reservation: WriteExclusive held by host A under key
    // 0x1111; we want WriteExclusive under key 0x2222.  The initial
    // registration and the report come first; the plan then preempts the
    // holder and acquires again to mend the post-replace report; the
    // post-check sees us.
    let p = params(NvmeReservation::WriteExclusive, 0x2222, None, NexusNvmePreemption::Holder);
    assert_eq!(
        initial_register(&p, false),
        ResvVerb::Register { new_key: 0x2222, persist_through_power_loss: false }
    );
    let plan = preempt_holder_plan(&p, Some((1, 0x1111, HOST_A)), HOST_OURS, false).unwrap();
    assert_eq!(
        plan,
        vec![
            ResvVerb::Acquire {
                current_key: 0x2222,
                preempt_key: Some(0x1111),
                resv_type: NvmeReservation::WriteExclusive,
            },
            ResvVerb::Acquire {
                current_key: 0x2222,
                preempt_key: None,
                resv_type: NvmeReservation::WriteExclusive,
            },
        ]
    );
    // The device now shows us as the holder.
    let ctrls = vec![raw_controller(1, true, 0x2222, HOST_OURS)];
    let rep = parse_reservation_report(&raw_report(4, 1, 0, &ctrls)).unwrap();
    assert!(resv_check_holder(&p, &rep, HOST_OURS).is_ok());
}

#[test]
fn preempt_holder_with_no_holder_acquires_outright() {
    let p = params(NvmeReservation::WriteExclusive, 0x2222, None, NexusNvmePreemption::Holder);
    let plan = preempt_holder_plan(&p, None, HOST_OURS, false).unwrap();
    assert_eq!(
        plan,
        vec![ResvVerb::Acquire {
            current_key: 0x2222,
            preempt_key: None,
            resv_type: NvmeReservation::WriteExclusive,
        }]
    );
}

#[test]
fn preempt_holder_already_ours_is_a_noop() {
    let p = params(NvmeReservation::WriteExclusive, 0x2222, None, NexusNvmePreemption::Holder);
    let plan = preempt_holder_plan(&p, Some((1, 0x2222, HOST_OURS)), HOST_OURS, false).unwrap();
    assert!(plan.is_empty());
}

#[test]
fn preempt_holder_ours_under_other_type_reregisters() {
    // We held ExclusiveAccess but want WriteExclusive: the preempt
    // clears our registration, so the plan registers again.
    let p = params(NvmeReservation::WriteExclusive, 0x2222, None, NexusNvmePreemption::Holder);
    let plan = preempt_holder_plan(&p, Some((2, 0x2222, HOST_OURS)), HOST_OURS, true).unwrap();
    assert_eq!(
        plan,
        vec![
            ResvVerb::Acquire {
                current_key: 0x2222,
                preempt_key: Some(0x2222),
                resv_type: NvmeReservation::WriteExclusive,
            },
            ResvVerb::Register { new_key: 0x2222, persist_through_power_loss: true },
            ResvVerb::Acquire {
                current_key: 0x2222,
                preempt_key: None,
                resv_type: NvmeReservation::WriteExclusive,
            },
        ]
    );
}

#[test]
fn preempt_holder_narrows_a_shared_reservation() {
    // WriteExclusiveAllRegs in force, WriteExclusive desired: release
    // first to drop the other registrants, then acquire the narrow type.
    let p = params(NvmeReservation::WriteExclusive, 0x2222, None, NexusNvmePreemption::Holder);
    let plan = preempt_holder_plan(&p, Some((5, 0x1111, HOST_A)), HOST_OURS, false).unwrap();
    assert_eq!(
        plan,
        vec![
            ResvVerb::Release {
                current_key: 0x2222,
                resv_type: NvmeReservation::WriteExclusiveAllRegs,
            },
            ResvVerb::Acquire {
                current_key: 0x2222,
                preempt_key: None,
                resv_type: NvmeReservation::WriteExclusive,
            },
        ]
    );
}

#[test]
fn preempt_holder_broader_shared_type_needs_nothing() {
    // Shared in force and shared desired: the registration suffices.
    let p = params(
        NvmeReservation::ExclusiveAccessAllRegs,
        0x2222,
        None,
        NexusNvmePreemption::Holder,
    );
    let plan = preempt_holder_plan(&p, Some((5, 0x1111, HOST_A)), HOST_OURS, false).unwrap();
    assert!(plan.is_empty());
}

#[test]
fn preempt_holder_rejects_unknown_type_code() {
    let p = params(NvmeReservation::WriteExclusive, 0x2222, None, NexusNvmePreemption::Holder);
    let r = preempt_holder_plan(&p, Some((0, 0x1111, HOST_A)), HOST_OURS, false);
    assert_eq!(r.unwrap_err(), ChildError::ResvType { resv_type: 0 });
}

#[test]
fn argkey_plan_registers_then_preempts_the_configured_key() {
    let p = params(
        NvmeReservation::ExclusiveAccess,
        0x2222,
        Some(0x1111),
        NexusNvmePreemption::ArgKey,
    );
    assert_eq!(
        argkey_plan(&p, true),
        vec![
            ResvVerb::Register { new_key: 0x2222, persist_through_power_loss: true },
            ResvVerb::Acquire {
                current_key: 0x2222,
                preempt_key: Some(0x1111),
                resv_type: NvmeReservation::ExclusiveAccess,
            },
        ]
    );
}

#[test]
fn reservation_codes_round_trip() {
    for code in 1u8..=6 {
        let rt = NvmeReservation::from_code(code).unwrap();
        assert_eq!(rt.code(), code);
    }
    assert!(NvmeReservation::from_code(0).is_none());
    assert!(NvmeReservation::from_code(7).is_none());
}

#[test]
fn protocol_skip_gate() {
    let p = params(NvmeReservation::WriteExclusive, 0x2222, None, NexusNvmePreemption::ArgKey);
    assert!(reservation_protocol_enabled(true, &p));
    assert!(!reservation_protocol_enabled(false, &p));
    let disabled =
        params(NvmeReservation::WriteExclusive, 0, None, NexusNvmePreemption::ArgKey);
    assert!(!reservation_protocol_enabled(true, &disabled));
}

#[test]
fn acquire_plan_follows_the_policy() {
    let argkey = params(
        NvmeReservation::WriteExclusive,
        0x2222,
        Some(0x1111),
        NexusNvmePreemption::ArgKey,
    );
    // The ArgKey policy ignores the holder.
    assert_eq!(
        reservation_acquire_plan(&argkey, Some((1, 0x9999, HOST_A)), HOST_OURS, false).unwrap(),
        argkey_plan(&argkey, false)
    );
    let holder = params(NvmeReservation::WriteExclusive, 0x2222, None, NexusNvmePreemption::Holder);
    assert_eq!(
        reservation_acquire_plan(&holder, None, HOST_OURS, false).unwrap(),
        preempt_holder_plan(&holder, None, HOST_OURS, false).unwrap()
    );
}

#[test]
fn verb_outcomes_classify_per_the_skip_rule() {
    let register = ResvVerb::Register { new_key: 0x2222, persist_through_power_loss: false };
    let acquire = ResvVerb::Acquire {
        current_key: 0x2222,
        preempt_key: None,
        resv_type: NvmeReservation::WriteExclusive,
    };
    let release = ResvVerb::Release {
        current_key: 0x2222,
        resv_type: NvmeReservation::WriteExclusiveAllRegs,
    };
    // Success continues; a device without reservation support ends the
    // protocol as a skipped success; other failures surface per verb.
    assert_eq!(classify_verb_outcome(&register, VerbStatus::Succeeded), ProtocolStep::Continue);
    assert_eq!(
        classify_verb_outcome(&register, VerbStatus::NotSupported),
        ProtocolStep::SkipRemaining
    );
    assert_eq!(
        classify_verb_outcome(&register, VerbStatus::Failed),
        ProtocolStep::Abort(ChildError::ResvRegisterKey)
    );
    assert_eq!(
        classify_verb_outcome(&acquire, VerbStatus::Failed),
        ProtocolStep::Abort(ChildError::ResvAcquire)
    );
    assert_eq!(
        classify_verb_outcome(&release, VerbStatus::Failed),
        ProtocolStep::Abort(ChildError::ResvRelease)
    );
}
