//! NVMe persistent reservations: the fencing protocol of a nexus child.
//!
//! Children that are network-attached namespaces are fenced against stale
//! nexuses by NVMe persistent reservations.  The device performs the
//! verbs (register, acquire, release, report); this module holds what the
//! engine decides: parsing the reservation report bit-for-bit from its
//! wire layout, locating the holder, planning the verb sequence that
//! takes the reservation over, and checking that we hold it afterwards.

use vstd::prelude::*;

use crate::child::ChildError;

verus! {

/// An NVMe reservation type.
#[derive(Debug, Clone, Copy, PartialEq, Eq, Structural)]
pub enum NvmeReservation {
    WriteExclusive,
    ExclusiveAccess,
    WriteExclusiveRegsOnly,
    ExclusiveAccessRegsOnly,
    WriteExclusiveAllRegs,
    ExclusiveAccessAllRegs,
}

impl NvmeReservation {
    /// The on-the-wire code of the reservation type.
    pub open spec fn spec_code(self) -> u8 {
        match self {
            NvmeReservation::WriteExclusive => 1,
            NvmeReservation::ExclusiveAccess => 2,
            NvmeReservation::WriteExclusiveRegsOnly => 3,
            NvmeReservation::ExclusiveAccessRegsOnly => 4,
            NvmeReservation::WriteExclusiveAllRegs => 5,
            NvmeReservation::ExclusiveAccessAllRegs => 6,
        }
    }

    /// The on-the-wire code of the reservation type.
    pub fn code(&self) -> (r: u8)
        ensures
            r == self.spec_code(),
    {
        match self {
            NvmeReservation::WriteExclusive => 1,
            NvmeReservation::ExclusiveAccess => 2,
            NvmeReservation::WriteExclusiveRegsOnly => 3,
            NvmeReservation::ExclusiveAccessRegsOnly => 4,
            NvmeReservation::WriteExclusiveAllRegs => 5,
            NvmeReservation::ExclusiveAccessAllRegs => 6,
        }
    }

    /// The reservation type a wire code denotes, if any.
    pub open spec fn spec_from_code(code: u8) -> Option<NvmeReservation> {
        if code == 1 {
            Some(NvmeReservation::WriteExclusive)
        } else if code == 2 {
            Some(NvmeReservation::ExclusiveAccess)
        } else if code == 3 {
            Some(NvmeReservation::WriteExclusiveRegsOnly)
        } else if code == 4 {
            Some(NvmeReservation::ExclusiveAccessRegsOnly)
        } else if code == 5 {
            Some(NvmeReservation::WriteExclusiveAllRegs)
        } else if code == 6 {
            Some(NvmeReservation::ExclusiveAccessAllRegs)
        } else {
            None
        }
    }

    /// Decode a wire code.
    pub fn from_code(code: u8) -> (r: Option<NvmeReservation>)
        ensures
            r == Self::spec_from_code(code),
    {
        match code {
            1 => Some(NvmeReservation::WriteExclusive),
            2 => Some(NvmeReservation::ExclusiveAccess),
            3 => Some(NvmeReservation::WriteExclusiveRegsOnly),
            4 => Some(NvmeReservation::ExclusiveAccessRegsOnly),
            5 => Some(NvmeReservation::WriteExclusiveAllRegs),
            6 => Some(NvmeReservation::ExclusiveAccessAllRegs),
            _ => None,
        }
    }

    /// All-registrants-shared types: every registrant has access, so the
    /// holder's identity does not matter.
    pub open spec fn spec_is_shared(self) -> bool {
        self == NvmeReservation::WriteExclusiveAllRegs || self
            == NvmeReservation::ExclusiveAccessAllRegs
    }

    /// Whether this is an all-registrants-shared type.
    pub fn is_shared(&self) -> (r: bool)
        ensures
            r == self.spec_is_shared(),
    {
        matches!(
            self,
            NvmeReservation::WriteExclusiveAllRegs | NvmeReservation::ExclusiveAccessAllRegs
        )
    }
}

/// How an existing reservation holder is preempted.
#[derive(Debug, Clone, Copy, PartialEq, Eq, Structural)]
pub enum NexusNvmePreemption {
    /// Preempt the key given as an argument, if any.
    ArgKey,
    /// Locate the current holder in the report and preempt it.
    Holder,
}

/// Reservation parameters a nexus child is configured with.
#[derive(Debug, Clone, Copy, PartialEq, Eq, Structural)]
pub struct NexusNvmeParams {
    /// Desired reservation type.
    pub resv_type: NvmeReservation,
    /// Our reservation key.
    pub resv_key: u64,
    /// Key to preempt under the `ArgKey` policy, if any.
    pub preempt_key: Option<u64>,
    /// Preemption policy.
    pub preempt_policy: NexusNvmePreemption,
}

impl NexusNvmeParams {
    /// Reservations take part only when a key has been configured.
    pub fn reservations_enabled(&self) -> (r: bool)
        ensures
            r == (self.resv_key != 0),
    {
        self.resv_key != 0
    }
}

/// Whether the reservation protocol runs at all: an environment toggle
/// must be set (read by the caller) and reservations must be configured.
pub fn reservation_protocol_enabled(env_toggle_set: bool, params: &NexusNvmeParams) -> (r: bool)
    ensures
        r == (env_toggle_set && params.resv_key != 0),
{
    env_toggle_set && params.reservations_enabled()
}

/// The 16-bit little-endian value at offset `i`.
pub open spec fn spec_le16(s: Seq<u8>, i: int) -> int {
    s[i] + 0x100 * s[i + 1]
}

/// The 32-bit little-endian value at offset `i`.
pub open spec fn spec_le32(s: Seq<u8>, i: int) -> int {
    s[i] + 0x100 * (s[i + 1] + 0x100 * (s[i + 2] + 0x100 * s[i + 3]))
}

/// The 64-bit little-endian value at offset `i`.
pub open spec fn spec_le64(s: Seq<u8>, i: int) -> int {
    s[i] + 0x100 * (s[i + 1] + 0x100 * (s[i + 2] + 0x100 * (s[i + 3] + 0x100 * (s[i + 4] + 0x100
        * (s[i + 5] + 0x100 * (s[i + 6] + 0x100 * s[i + 7]))))))
}

/// The 128-bit little-endian value at offset `i`.
pub open spec fn spec_le128(s: Seq<u8>, i: int) -> int {
    spec_le64(s, i) + 0x10000000000000000 * spec_le64(s, i + 8)
}

fn read_le16(buf: &[u8], i: usize) -> (r: u16)
    requires
        i + 2 <= buf@.len(),
    ensures
        r == spec_le16(buf@, i as int),
{
    buf[i] as u16 + 0x100 * (buf[i + 1] as u16)
}

fn read_le32(buf: &[u8], i: usize) -> (r: u32)
    requires
        i + 4 <= buf@.len(),
    ensures
        r == spec_le32(buf@, i as int),
{
    buf[i] as u32 + 0x100 * (buf[i + 1] as u32 + 0x100 * (buf[i + 2] as u32 + 0x100 * (buf[i
        + 3] as u32)))
}

fn read_le64(buf: &[u8], i: usize) -> (r: u64)
    requires
        i + 8 <= buf@.len(),
    ensures
        r == spec_le64(buf@, i as int),
{
    buf[i] as u64 + 0x100 * (buf[i + 1] as u64 + 0x100 * (buf[i + 2] as u64 + 0x100 * (buf[i
        + 3] as u64 + 0x100 * (buf[i + 4] as u64 + 0x100 * (buf[i + 5] as u64 + 0x100 * (buf[i
        + 6] as u64 + 0x100 * (buf[i + 7] as u64)))))))
}

fn read_le128(buf: &[u8], i: usize) -> (r: u128)
    requires
        i + 16 <= buf@.len(),
    ensures
        r == spec_le128(buf@, i as int),
{
    // Take the length first: it bounds the offset arithmetic below.
    let n = buf.len();
    proof {
        assert(i + 16 <= n);
    }
    let lo = read_le64(buf, i);
    let hi = read_le64(buf, i + 8);
    lo as u128 + 0x10000000000000000 * (hi as u128)
}

/// One entry of the registered-controller extended data: what the engine
/// reads of it.
#[derive(Debug, Clone, Copy, PartialEq, Eq, Structural)]
pub struct RegisteredController {
    /// Controller identifier.
    pub cntlid: u16,
    /// Whether this controller holds the reservation (bit 0 of `rcsts`).
    pub holds_reservation: bool,
    /// The registrant's reservation key.
    pub rkey: u64,
    /// The registrant's 128-bit host identifier.
    pub hostid: u128,
}

/// A parsed reservation report: the reservation-status extended data
/// structure and its registered-controller entries.
#[derive(Debug)]
pub struct ReservationReport {
    /// Generation counter.
    pub generation: u32,
    /// Reservation type code currently in force; zero when none is.
    pub rtype: u8,
    /// Number of registered controllers the device reported.
    pub regctl: u16,
    /// Persist-through-power-loss state.
    pub ptpls: u8,
    /// The registered controllers, in report order, as many as the buffer
    /// carries.
    pub controllers: Vec<RegisteredController>,
}

/// The controller entry at byte offset `base`.
pub open spec fn spec_controller_at(s: Seq<u8>, base: int) -> RegisteredController {
    RegisteredController {
        cntlid: spec_le16(s, base) as u16,
        holds_reservation: s[base + 2] & 1 == 1,
        rkey: spec_le64(s, base + 8) as u64,
        hostid: spec_le128(s, base + 16) as u128,
    }
}

/// How many controller entries a report buffer carries: what the header
/// announces, clamped to what the buffer holds.
pub open spec fn spec_controller_count(s: Seq<u8>) -> int
    recommends
        s.len() >= 64,
{
    let announced = spec_le16(s, 5);
    let available = (s.len() - 64) as int / 64;
    if announced <= available {
        announced
    } else {
        available
    }
}

/// Parse a reservation report from its extended-data wire layout: a
/// 64-byte reservation-status structure (generation, type, controller
/// count, persist-through-power-loss state), followed by one 64-byte
/// registered-controller structure per controller.  `None` when the
/// buffer cannot hold the header.
pub fn parse_reservation_report(buf: &[u8]) -> (r: Option<ReservationReport>)
    ensures
        (r is Some) == (buf@.len() >= 64),
        r matches Some(rep) ==> {
            &&& rep.generation == spec_le32(buf@, 0)
            &&& rep.rtype == buf@[4]
            &&& rep.regctl == spec_le16(buf@, 5)
            &&& rep.ptpls == buf@[9]
            &&& rep.controllers@.len() == spec_controller_count(buf@)
            &&& forall|k: int|
                0 <= k < rep.controllers@.len() ==> #[trigger] rep.controllers@[k]
                    == spec_controller_at(buf@, 64 + 64 * k)
        },
{
    if buf.len() < 64 {
        return None;
    }
    let generation = read_le32(buf, 0);
    let rtype = buf[4];
    let regctl = read_le16(buf, 5);
    let ptpls = buf[9];
    let available = (buf.len() - 64) / 64;
    let count: usize = if (regctl as usize) <= available {
        regctl as usize
    } else {
        available
    };
    let mut controllers: Vec<RegisteredController> = Vec::new();
    let mut k: usize = 0;
    while k < count
        invariant
            buf@.len() >= 64,
            count == spec_controller_count(buf@),
            count <= (buf@.len() - 64) as int / 64,
            k <= count,
            controllers@.len() == k,
            forall|j: int|
                0 <= j < k ==> #[trigger] controllers@[j] == spec_controller_at(buf@, 64 + 64 * j),
        decreases count - k,
    {
        proof {
            assert(64 + 64 * (k as int) + 64 <= buf@.len()) by (nonlinear_arith)
                requires
                    0 <= k < count,
                    count <= (buf@.len() - 64) as int / 64,
            ;
        }
        let base = 64 + 64 * k;
        let c = RegisteredController {
            cntlid: read_le16(buf, base),
            holds_reservation: buf[base + 2] & 1 == 1,
            rkey: read_le64(buf, base + 8),
            hostid: read_le128(buf, base + 16),
        };
        controllers.push(c);
        k += 1;
    }
    Some(ReservationReport { generation, rtype, regctl, ptpls, controllers })
}

/// The first controller that holds the reservation, if any.
pub open spec fn spec_find_holder(ctrls: Seq<RegisteredController>) -> Option<
    RegisteredController,
>
    decreases ctrls.len(),
{
    if ctrls.len() == 0 {
        None
    } else if ctrls[0].holds_reservation {
        Some(ctrls[0])
    } else {
        spec_find_holder(ctrls.skip(1))
    }
}

proof fn lemma_find_holder_skip(ctrls: Seq<RegisteredController>, i: int)
    requires
        0 <= i <= ctrls.len(),
        forall|j: int| 0 <= j < i ==> !(#[trigger] ctrls[j]).holds_reservation,
    ensures
        spec_find_holder(ctrls) == spec_find_holder(ctrls.skip(i)),
    decreases i,
{
    if i > 0 {
        assert(!ctrls[0].holds_reservation);
        assert(forall|j: int|
            0 <= j < i - 1 ==> (#[trigger] ctrls.skip(1)[j]) == ctrls[j + 1]
                && !ctrls[j + 1].holds_reservation);
        lemma_find_holder_skip(ctrls.skip(1), i - 1);
        assert(ctrls.skip(1).skip(i - 1) =~= ctrls.skip(i));
    } else {
        assert(ctrls.skip(0) =~= ctrls);
    }
}

/// Locate the current reservation holder in a report: the first
/// registered controller whose status says it holds the reservation.
/// Returns the reservation type code, the holder's key and its host
/// identifier.
pub fn resv_holder(rep: &ReservationReport) -> (r: Option<(u8, u64, u128)>)
    ensures
        r == match spec_find_holder(rep.controllers@) {
            Some(c) => Some((rep.rtype, c.rkey, c.hostid)),
            None => None::<(u8, u64, u128)>,
        },
{
    let n = rep.controllers.len();
    let mut k: usize = 0;
    while k < n
        invariant
            n == rep.controllers@.len(),
            k <= n,
            forall|j: int| 0 <= j < k ==> !(#[trigger] rep.controllers@[j]).holds_reservation,
        decreases n - k,
    {
        let c = &rep.controllers[k];
        if c.holds_reservation {
            proof {
                lemma_find_holder_skip(rep.controllers@, k as int);
                assert(rep.controllers@.skip(k as int)[0] == rep.controllers@[k as int]);
            }
            return Some((rep.rtype, c.rkey, c.hostid));
        }
        k += 1;
    }
    proof {
        lemma_find_holder_skip(rep.controllers@, n as int);
    }
    None
}

/// The verdict on a report when the holder must be us: the type in force
/// must be ours (a shared type in force matches any desired shared type),
/// and unless the type is shared, the unique holder must carry our key
/// and our host identifier.
pub open spec fn spec_check_holder_owner(
    args: NexusNvmeParams,
    rep: ReservationReport,
    my_hostid: u128,
) -> Result<(), ChildError> {
    if args.resv_type.spec_is_shared() {
        Ok(())
    } else {
        match spec_find_holder(rep.controllers@) {
            None => Err((ChildError::ResvNoHolder { resv_type: rep.rtype })),
            Some(c) => if c.rkey != args.resv_key || c.hostid != my_hostid {
                Err(
                    (ChildError::Holder {
                        hostid: c.hostid,
                        resv_type: rep.rtype,
                        resv_key: c.rkey,
                    }),
                )
            } else {
                Ok(())
            },
        }
    }
}

/// The verdict of the post-acquire check on a parsed report.
pub open spec fn spec_check_holder(
    args: NexusNvmeParams,
    rep: ReservationReport,
    my_hostid: u128,
) -> Result<(), ChildError> {
    if args.resv_type.spec_code() != rep.rtype {
        match NvmeReservation::spec_from_code(rep.rtype) {
            None => Err((ChildError::ResvType { resv_type: rep.rtype })),
            Some(rt) => if !(args.resv_type.spec_is_shared() && rt.spec_is_shared()) {
                Err((ChildError::ResvType { resv_type: rep.rtype }))
            } else {
                spec_check_holder_owner(args, rep, my_hostid)
            },
        }
    } else {
        spec_check_holder_owner(args, rep, my_hostid)
    }
}

/// Check that we hold the reservation, from a parsed report: the type
/// must match (shared types are type-agnostic among themselves), and for
/// a non-shared type the holder must be this host under our key.
pub fn resv_check_holder(
    args: &NexusNvmeParams,
    rep: &ReservationReport,
    my_hostid: u128,
) -> (r: Result<(), ChildError>)
    ensures
        r == spec_check_holder(*args, *rep, my_hostid),
{
    if args.resv_type.code() != rep.rtype {
        match NvmeReservation::from_code(rep.rtype) {
            None => {
                return Err(ChildError::ResvType { resv_type: rep.rtype });
            },
            Some(rt) => {
                if !(args.resv_type.is_shared() && rt.is_shared()) {
                    return Err(ChildError::ResvType { resv_type: rep.rtype });
                }
            },
        }
    }
    if args.resv_type.is_shared() {
        return Ok(());
    }
    match resv_holder(rep) {
        None => Err(ChildError::ResvNoHolder { resv_type: rep.rtype }),
        Some((_code, rkey, hostid)) => {
            if rkey != args.resv_key || hostid != my_hostid {
                Err(ChildError::Holder { hostid, resv_type: rep.rtype, resv_key: rkey })
            } else {
                Ok(())
            }
        },
    }
}

/// One reservation verb of a takeover plan, performed by the device
/// layer in order.
#[derive(Debug, Clone, Copy, PartialEq, Eq, Structural)]
pub enum ResvVerb {
    /// Register the given key (replace semantics, ignoring an existing
    /// key), persisting the reservation through power loss when the
    /// engine is configured for it, clearing it on power-on otherwise.
    Register { new_key: u64, persist_through_power_loss: bool },
    /// Acquire the reservation; with a preempt key the action is
    /// `PREEMPT`, without one it is `ACQUIRE`.
    Acquire { current_key: u64, preempt_key: Option<u64>, resv_type: NvmeReservation },
    /// Release the reservation held under the given type.
    Release { current_key: u64, resv_type: NvmeReservation },
}

/// The registration that opens the protocol under either policy: our key
/// is registered before any other verb — and, under the `Holder` policy,
/// before the reservation report is fetched.  The reservation persists
/// through power loss exactly when the engine is configured for it.
pub fn initial_register(args: &NexusNvmeParams, ptpl_enabled: bool) -> (r: ResvVerb)
    ensures
        r == (ResvVerb::Register {
            new_key: args.resv_key,
            persist_through_power_loss: ptpl_enabled,
        }),
{
    ResvVerb::Register { new_key: args.resv_key, persist_through_power_loss: ptpl_enabled }
}

/// What the device layer reports for one reservation verb.
#[derive(Debug, Clone, Copy, PartialEq, Eq, Structural)]
pub enum VerbStatus {
    /// The verb succeeded.
    Succeeded,
    /// The device does not support reservations.
    NotSupported,
    /// The verb failed for another reason.
    Failed,
}

/// What the protocol does after one verb's outcome.
#[derive(Debug, Clone, Copy, PartialEq, Eq, Structural)]
pub enum ProtocolStep {
    /// Go on with the next verb.
    Continue,
    /// Stop with success: the device does not take part in reservations.
    SkipRemaining,
    /// Surface the error.
    Abort(ChildError),
}

/// The error a failed verb surfaces.
pub open spec fn spec_verb_error(verb: ResvVerb) -> ChildError {
    match verb {
        ResvVerb::Register { .. } => ChildError::ResvRegisterKey,
        ResvVerb::Acquire { .. } => ChildError::ResvAcquire,
        ResvVerb::Release { .. } => ChildError::ResvRelease,
    }
}

/// Classify one verb's outcome: success continues the protocol, a device
/// without reservation support ends it as a skipped success, and any
/// other failure aborts with the verb's own error.
pub fn classify_verb_outcome(verb: &ResvVerb, status: VerbStatus) -> (r: ProtocolStep)
    ensures
        status == VerbStatus::Succeeded ==> r == ProtocolStep::Continue,
        status == VerbStatus::NotSupported ==> r == ProtocolStep::SkipRemaining,
        status == VerbStatus::Failed ==> r == ProtocolStep::Abort(spec_verb_error(*verb)),
{
    match status {
        VerbStatus::Succeeded => ProtocolStep::Continue,
        VerbStatus::NotSupported => ProtocolStep::SkipRemaining,
        VerbStatus::Failed => ProtocolStep::Abort(
            match verb {
                ResvVerb::Register { .. } => ChildError::ResvRegisterKey,
                ResvVerb::Acquire { .. } => ChildError::ResvAcquire,
                ResvVerb::Release { .. } => ChildError::ResvRelease,
            },
        ),
    }
}

/// The verb sequence of the `ArgKey` policy: register our key, then
/// acquire with it, preempting the configured key if one is set.
pub fn argkey_plan(args: &NexusNvmeParams, ptpl_enabled: bool) -> (r: Vec<ResvVerb>)
    ensures
        r@ == seq![
            (ResvVerb::Register {
                new_key: args.resv_key,
                persist_through_power_loss: ptpl_enabled,
            }),
            (ResvVerb::Acquire {
                current_key: args.resv_key,
                preempt_key: args.preempt_key,
                resv_type: args.resv_type,
            }),
        ],
{
    let mut v: Vec<ResvVerb> = Vec::new();
    v.push(initial_register(args, ptpl_enabled));
    v.push(
        ResvVerb::Acquire {
            current_key: args.resv_key,
            preempt_key: args.preempt_key,
            resv_type: args.resv_type,
        },
    );
    proof {
        assert(v@ =~= seq![
            (ResvVerb::Register {
                new_key: args.resv_key,
                persist_through_power_loss: ptpl_enabled,
            }),
            (ResvVerb::Acquire {
                current_key: args.resv_key,
                preempt_key: args.preempt_key,
                resv_type: args.resv_type,
            }),
        ]);
    }
    v
}

/// The verb sequence of the `Holder` policy, after the initial
/// registration and report, as a function of the holder the report names
/// (type code, key, host identifier) and our own host identifier.
pub open spec fn spec_preempt_holder_plan(
    args: NexusNvmeParams,
    holder: Option<(u8, u64, u128)>,
    my_hostid: u128,
    ptpl_enabled: bool,
) -> Result<Seq<ResvVerb>, ChildError> {
    match holder {
        // Nobody holds the reservation: acquire it outright.
        None => Ok(
            seq![
                (ResvVerb::Acquire {
                    current_key: args.resv_key,
                    preempt_key: None,
                    resv_type: args.resv_type,
                }),
            ],
        ),
        Some((code, pkey, hostid)) => match NvmeReservation::spec_from_code(code) {
            None => Err((ChildError::ResvType { resv_type: code })),
            Some(rt) => {
                if rt == args.resv_type && hostid == my_hostid && pkey == args.resv_key {
                    // Already ours, under the right type.
                    Ok(Seq::<ResvVerb>::empty())
                } else if !rt.spec_is_shared() {
                    if !(rt != args.resv_type && hostid == my_hostid) {
                        // Preempt the holder, then acquire again to mend
                        // the report after a replace-and-ignore-existing
                        // registration.
                        Ok(
                            seq![
                                (ResvVerb::Acquire {
                                    current_key: args.resv_key,
                                    preempt_key: Some(pkey),
                                    resv_type: args.resv_type,
                                }),
                                (ResvVerb::Acquire {
                                    current_key: args.resv_key,
                                    preempt_key: None,
                                    resv_type: args.resv_type,
                                }),
                            ],
                        )
                    } else {
                        // We held it under another type: preempting
                        // cleared our registration, so register again and
                        // acquire afresh.
                        Ok(
                            seq![
                                (ResvVerb::Acquire {
                                    current_key: args.resv_key,
                                    preempt_key: Some(pkey),
                                    resv_type: args.resv_type,
                                }),
                                (ResvVerb::Register {
                                    new_key: args.resv_key,
                                    persist_through_power_loss: ptpl_enabled,
                                }),
                                (ResvVerb::Acquire {
                                    current_key: args.resv_key,
                                    preempt_key: None,
                                    resv_type: args.resv_type,
                                }),
                            ],
                        )
                    }
                } else if !args.resv_type.spec_is_shared() {
                    // Narrowing from an all-registrants type: release it
                    // first to drop the other registrants, then acquire
                    // the stricter type.
                    Ok(
                        seq![
                            (ResvVerb::Release { current_key: args.resv_key, resv_type: rt }),
                            (ResvVerb::Acquire {
                                current_key: args.resv_key,
                                preempt_key: None,
                                resv_type: args.resv_type,
                            }),
                        ],
                    )
                } else {
                    // Both shared: the registration already grants access.
                    Ok(Seq::<ResvVerb>::empty())
                }
            },
        },
    }
}

/// Plan the takeover of an existing reservation under the `Holder`
/// policy.
pub fn preempt_holder_plan(
    args: &NexusNvmeParams,
    holder: Option<(u8, u64, u128)>,
    my_hostid: u128,
    ptpl_enabled: bool,
) -> (r: Result<Vec<ResvVerb>, ChildError>)
    ensures
        (r is Ok) == (spec_preempt_holder_plan(*args, holder, my_hostid, ptpl_enabled) is Ok),
        r matches Ok(v) ==> Ok::<Seq<ResvVerb>, ChildError>(v@) == spec_preempt_holder_plan(
            *args,
            holder,
            my_hostid,
            ptpl_enabled,
        ),
        r matches Err(e) ==> Err::<Seq<ResvVerb>, ChildError>(e) == spec_preempt_holder_plan(
            *args,
            holder,
            my_hostid,
            ptpl_enabled,
        ),
{
    let mut v: Vec<ResvVerb> = Vec::new();
    let (code, pkey, hostid) = match holder {
        None => {
            v.push(
                ResvVerb::Acquire {
                    current_key: args.resv_key,
                    preempt_key: None,
                    resv_type: args.resv_type,
                },
            );
            proof {
                assert(v@ =~= spec_preempt_holder_plan(*args, holder, my_hostid, ptpl_enabled)->Ok_0);
            }
            return Ok(v);
        },
        Some(h) => h,
    };
    let rt = match NvmeReservation::from_code(code) {
        None => {
            return Err(ChildError::ResvType { resv_type: code });
        },
        Some(rt) => rt,
    };
    if rt == args.resv_type && hostid == my_hostid && pkey == args.resv_key {
        proof {
            assert(v@ =~= Seq::<ResvVerb>::empty());
        }
        return Ok(v);
    }
    if !rt.is_shared() {
        v.push(
            ResvVerb::Acquire {
                current_key: args.resv_key,
                preempt_key: Some(pkey),
                resv_type: args.resv_type,
            },
        );
        if !(rt != args.resv_type && hostid == my_hostid) {
            v.push(
                ResvVerb::Acquire {
                    current_key: args.resv_key,
                    preempt_key: None,
                    resv_type: args.resv_type,
                },
            );
        } else {
            v.push(initial_register(args, ptpl_enabled));
            v.push(
                ResvVerb::Acquire {
                    current_key: args.resv_key,
                    preempt_key: None,
                    resv_type: args.resv_type,
                },
            );
        }
        proof {
            assert(v@ =~= spec_preempt_holder_plan(*args, holder, my_hostid, ptpl_enabled)->Ok_0);
        }
        return Ok(v);
    }
    if !args.resv_type.is_shared() {
        v.push(ResvVerb::Release { current_key: args.resv_key, resv_type: rt });
        v.push(
            ResvVerb::Acquire {
                current_key: args.resv_key,
                preempt_key: None,
                resv_type: args.resv_type,
            },
        );
    }
    proof {
        assert(v@ =~= spec_preempt_holder_plan(*args, holder, my_hostid, ptpl_enabled)->Ok_0);
    }
    Ok(v)
}

/// The verb sequence of a reservation acquire, after the initial
/// registration, chosen by the configured preemption policy: under
/// `ArgKey` the report is not consulted and the configured preempt key
/// is used; under `Holder` the holder located in the report is taken
/// over.
pub fn reservation_acquire_plan(
    args: &NexusNvmeParams,
    holder: Option<(u8, u64, u128)>,
    my_hostid: u128,
    ptpl_enabled: bool,
) -> (r: Result<Vec<ResvVerb>, ChildError>)
    ensures
        args.preempt_policy == NexusNvmePreemption::ArgKey ==> (r matches Ok(v) && v@ == seq![
            (ResvVerb::Register {
                new_key: args.resv_key,
                persist_through_power_loss: ptpl_enabled,
            }),
            (ResvVerb::Acquire {
                current_key: args.resv_key,
                preempt_key: args.preempt_key,
                resv_type: args.resv_type,
            }),
        ]),
        args.preempt_policy == NexusNvmePreemption::Holder ==> {
            &&& (r is Ok) == (spec_preempt_holder_plan(*args, holder, my_hostid, ptpl_enabled) is Ok)
            &&& (r matches Ok(v) ==> Ok::<Seq<ResvVerb>, ChildError>(v@)
                == spec_preempt_holder_plan(*args, holder, my_hostid, ptpl_enabled))
            &&& (r matches Err(e) ==> Err::<Seq<ResvVerb>, ChildError>(e)
                == spec_preempt_holder_plan(*args, holder, my_hostid, ptpl_enabled))
        },
{
    match args.preempt_policy {
        NexusNvmePreemption::ArgKey => Ok(argkey_plan(args, ptpl_enabled)),
        NexusNvmePreemption::Holder => preempt_holder_plan(args, holder, my_hostid, ptpl_enabled),
    }
}

/// After a successful acquire the post-check passes: a report whose type
/// in force is the desired one and whose holder — required only for a
/// non-shared type — carries our key and host identifier is accepted by
/// the holder check.
pub proof fn lemma_check_holder_after_acquire(
    args: NexusNvmeParams,
    rep: ReservationReport,
    my_hostid: u128,
)
    requires
        rep.rtype == args.resv_type.spec_code(),
        !args.resv_type.spec_is_shared() ==> (spec_find_holder(rep.controllers@) matches Some(c)
            && c.rkey == args.resv_key && c.hostid == my_hostid),
    ensures
        spec_check_holder(args, rep, my_hostid) == Ok::<(), ChildError>(()),
{
}

} // verus!
