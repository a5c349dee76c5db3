//! The aggregate device manager: the decisions that build a private
//! aggregate device, as a machine that asks the HAL for one thing at a time.
//!
//! The caller performs each `HalRequest` against the OS and hands the answer
//! back as a `HalReply`, until the machine answers `Finished`. The machine
//! lists the devices, destroys every lingering device of the intended name,
//! creates the tap, and only then issues the single aggregate-creation call.

use vstd::prelude::*;

use crate::description::{AggregateDescription, ClockSource, DescriptionModel, capture_description};
use crate::directory::{
    DeviceInfo,
    DeviceModel,
    devices_named,
    devices_view,
    has_device_named,
    ids_named,
    lemma_ids_named_complete,
};
use crate::error::AudioError;
use crate::tap::{CATapDescription, TapDescriptionModel, is_hyphenated_uuid};

verus! {

/// A realized aggregate device and the tap bound to it.
#[derive(Clone, Copy, Debug, PartialEq, Eq, Structural)]
pub struct CreateAggregateDeviceResult {
    pub tap_id: u32,
    pub aggregate_device_id: u32,
}

/// Where the construction of an aggregate device stands.
#[derive(Clone, Copy, Debug, PartialEq, Eq, Structural)]
pub enum SetupPhase {
    Listing,
    RemovingStale,
    CreatingTap,
    CreatingAggregate,
    DestroyingTap,
    Done,
}

/// What the manager asks of the HAL next.
pub enum HalRequest {
    /// Report every audio device.
    ListDevices,
    /// Destroy the aggregate device with this ID.
    DestroyDevice(u32),
    /// Create a process tap as described.
    CreateTap(CATapDescription),
    /// Create the aggregate device as described.
    CreateAggregate(AggregateDescription),
    /// Destroy the process tap with this ID.
    DestroyTap(u32),
    /// Nothing more: the outcome of the construction.
    Finished(Result<CreateAggregateDeviceResult, AudioError>),
}

/// The HAL's answer to a `HalRequest`; an `Err` holds the non-zero status.
pub enum HalReply {
    Devices(Result<Vec<DeviceInfo>, i32>),
    Destroyed(Result<(), i32>),
    TapCreated(Result<u32, i32>),
    AggregateCreated(Result<u32, i32>),
    TapDestroyed(Result<(), i32>),
}

/// The mathematical value of a `HalRequest`.
pub enum RequestModel {
    ListDevices,
    DestroyDevice(u32),
    CreateTap(TapDescriptionModel),
    CreateAggregate(DescriptionModel),
    DestroyTap(u32),
    Finished(Result<CreateAggregateDeviceResult, AudioError>),
}

/// The mathematical value of a `HalReply`.
pub enum ReplyModel {
    Devices(Result<Seq<DeviceModel>, i32>),
    Destroyed(Result<(), i32>),
    TapCreated(Result<u32, i32>),
    AggregateCreated(Result<u32, i32>),
    TapDestroyed(Result<(), i32>),
}

impl View for HalRequest {
    type V = RequestModel;

    open spec fn view(&self) -> RequestModel {
        match self {
            HalRequest::ListDevices => RequestModel::ListDevices,
            HalRequest::DestroyDevice(id) => RequestModel::DestroyDevice(*id),
            HalRequest::CreateTap(t) => RequestModel::CreateTap(t@),
            HalRequest::CreateAggregate(d) => RequestModel::CreateAggregate(d@),
            HalRequest::DestroyTap(id) => RequestModel::DestroyTap(*id),
            HalRequest::Finished(r) => RequestModel::Finished(*r),
        }
    }
}

impl View for HalReply {
    type V = ReplyModel;

    open spec fn view(&self) -> ReplyModel {
        match self {
            HalReply::Devices(Ok(v)) => ReplyModel::Devices(Ok(devices_view(v@))),
            HalReply::Devices(Err(e)) => ReplyModel::Devices(Err(*e)),
            HalReply::Destroyed(r) => ReplyModel::Destroyed(*r),
            HalReply::TapCreated(r) => ReplyModel::TapCreated(*r),
            HalReply::AggregateCreated(r) => ReplyModel::AggregateCreated(*r),
            HalReply::TapDestroyed(r) => ReplyModel::TapDestroyed(*r),
        }
    }
}

/// The construction of one aggregate device.
pub struct AggregateSetup {
    pub description: AggregateDescription,
    pub tap: CATapDescription,
    pub phase: SetupPhase,
    /// Lingering devices of the intended name still to destroy; the last goes first.
    pub stale: Vec<u32>,
    pub tap_id: u32,
    /// The status with which the aggregate creation failed, while its tap is destroyed.
    pub failure: i32,
}

/// The mathematical value of an `AggregateSetup`.
pub struct SetupModel {
    pub description: DescriptionModel,
    pub tap: TapDescriptionModel,
    pub phase: SetupPhase,
    pub stale: Seq<u32>,
    pub tap_id: u32,
    pub failure: i32,
}

impl View for AggregateSetup {
    type V = SetupModel;

    open spec fn view(&self) -> SetupModel {
        SetupModel {
            description: self.description@,
            tap: self.tap@,
            phase: self.phase,
            stale: self.stale@,
            tap_id: self.tap_id,
            failure: self.failure,
        }
    }
}

pub open spec fn setup_start(description: DescriptionModel, tap: TapDescriptionModel) -> SetupModel {
    SetupModel { description, tap, phase: SetupPhase::Listing, stale: Seq::empty(), tap_id: 0, failure: 0 }
}

pub open spec fn finish(s: SetupModel, result: Result<CreateAggregateDeviceResult, AudioError>) -> (
    SetupModel,
    RequestModel,
) {
    (SetupModel { phase: SetupPhase::Done, ..s }, RequestModel::Finished(result))
}

/// Destroy the next lingering device, or go on to the tap when none is left.
pub open spec fn after_stale(s: SetupModel, stale: Seq<u32>) -> (SetupModel, RequestModel) {
    if stale.len() > 0 {
        (
            SetupModel { phase: SetupPhase::RemovingStale, stale, ..s },
            RequestModel::DestroyDevice(stale.last()),
        )
    } else {
        (SetupModel { phase: SetupPhase::CreatingTap, stale, ..s }, RequestModel::CreateTap(s.tap))
    }
}

/// One decision of the manager: the next state and the next request, given
/// the HAL's answer to the pending request. Any failure ends the construction
/// with that status, before any later request is made, except that a failed
/// aggregate creation first destroys the tap made for it; an answer that does
/// not fit the pending request ends it as `OutOfOrder`.
pub open spec fn setup_step(s: SetupModel, reply: ReplyModel) -> (SetupModel, RequestModel) {
    match reply {
        ReplyModel::Devices(r) => if s.phase == SetupPhase::Listing {
            match r {
                Ok(list) => after_stale(s, ids_named(list, s.description.name)),
                Err(status) => finish(s, Err(AudioError::Os(status))),
            }
        } else {
            finish(s, Err(AudioError::OutOfOrder))
        },
        ReplyModel::Destroyed(r) => if s.phase == SetupPhase::RemovingStale && s.stale.len() > 0 {
            match r {
                Ok(_) => after_stale(s, s.stale.drop_last()),
                Err(status) => finish(s, Err(AudioError::Os(status))),
            }
        } else {
            finish(s, Err(AudioError::OutOfOrder))
        },
        ReplyModel::TapCreated(r) => if s.phase == SetupPhase::CreatingTap {
            match r {
                Ok(tap_id) => (
                    SetupModel { phase: SetupPhase::CreatingAggregate, tap_id, ..s },
                    RequestModel::CreateAggregate(s.description),
                ),
                Err(status) => finish(s, Err(AudioError::Os(status))),
            }
        } else {
            finish(s, Err(AudioError::OutOfOrder))
        },
        ReplyModel::AggregateCreated(r) => if s.phase == SetupPhase::CreatingAggregate {
            match r {
                Ok(id) => finish(
                    s,
                    Ok(CreateAggregateDeviceResult { tap_id: s.tap_id, aggregate_device_id: id }),
                ),
                Err(status) => (
                    SetupModel { phase: SetupPhase::DestroyingTap, failure: status, ..s },
                    RequestModel::DestroyTap(s.tap_id),
                ),
            }
        } else {
            finish(s, Err(AudioError::OutOfOrder))
        },
        ReplyModel::TapDestroyed(_) => if s.phase == SetupPhase::DestroyingTap {
            finish(s, Err(AudioError::Os(s.failure)))
        } else {
            finish(s, Err(AudioError::OutOfOrder))
        },
    }
}

impl AggregateSetup {
    /// Starts the construction of the aggregate `description` with the tap
    /// `tap`; the first request lists the devices.
    pub fn new(description: AggregateDescription, tap: CATapDescription) -> (r: (
        AggregateSetup,
        HalRequest,
    ))
        ensures
            r.0@ == setup_start(description@, tap@),
            r.1@ == RequestModel::ListDevices,
    {
        let s = AggregateSetup {
            description,
            tap,
            phase: SetupPhase::Listing,
            stale: Vec::new(),
            tap_id: 0,
            failure: 0,
        };
        assert(s@.stale =~= Seq::<u32>::empty());
        (s, HalRequest::ListDevices)
    }

    fn finish(&mut self, result: Result<CreateAggregateDeviceResult, AudioError>) -> (r: HalRequest)
        ensures
            (final(self)@, r@) == finish(old(self)@, result),
    {
        self.phase = SetupPhase::Done;
        HalRequest::Finished(result)
    }

    fn enter_stale(&mut self, stale: Vec<u32>) -> (r: HalRequest)
        ensures
            (final(self)@, r@) == after_stale(old(self)@, stale@),
    {
        let n = stale.len();
        self.stale = stale;
        if n > 0 {
            self.phase = SetupPhase::RemovingStale;
            HalRequest::DestroyDevice(self.stale[n - 1])
        } else {
            self.phase = SetupPhase::CreatingTap;
            HalRequest::CreateTap(self.tap.copy())
        }
    }

    /// Takes the HAL's answer to the pending request and decides the next one.
    pub fn step(&mut self, reply: HalReply) -> (r: HalRequest)
        ensures
            (final(self)@, r@) == setup_step(old(self)@, reply@),
    {
        match reply {
            HalReply::Devices(listing) => {
                if self.phase == SetupPhase::Listing {
                    match listing {
                        Ok(list) => {
                            let stale = devices_named(&list, &self.description.name);
                            self.enter_stale(stale)
                        },
                        Err(status) => self.finish(Err(AudioError::Os(status))),
                    }
                } else {
                    self.finish(Err(AudioError::OutOfOrder))
                }
            },
            HalReply::Destroyed(r) => {
                if self.phase == SetupPhase::RemovingStale && self.stale.len() > 0 {
                    match r {
                        Ok(_) => {
                            let mut stale = Vec::new();
                            std::mem::swap(&mut stale, &mut self.stale);
                            stale.pop();
                            self.enter_stale(stale)
                        },
                        Err(status) => self.finish(Err(AudioError::Os(status))),
                    }
                } else {
                    self.finish(Err(AudioError::OutOfOrder))
                }
            },
            HalReply::TapCreated(r) => {
                if self.phase == SetupPhase::CreatingTap {
                    match r {
                        Ok(tap_id) => {
                            self.phase = SetupPhase::CreatingAggregate;
                            self.tap_id = tap_id;
                            HalRequest::CreateAggregate(self.description.copy())
                        },
                        Err(status) => self.finish(Err(AudioError::Os(status))),
                    }
                } else {
                    self.finish(Err(AudioError::OutOfOrder))
                }
            },
            HalReply::AggregateCreated(r) => {
                if self.phase == SetupPhase::CreatingAggregate {
                    match r {
                        Ok(id) => {
                            let tap_id = self.tap_id;
                            self.finish(
                                Ok(CreateAggregateDeviceResult { tap_id, aggregate_device_id: id }),
                            )
                        },
                        Err(status) => {
                            self.phase = SetupPhase::DestroyingTap;
                            self.failure = status;
                            HalRequest::DestroyTap(self.tap_id)
                        },
                    }
                } else {
                    self.finish(Err(AudioError::OutOfOrder))
                }
            },
            HalReply::TapDestroyed(_) => {
                if self.phase == SetupPhase::DestroyingTap {
                    let failure = self.failure;
                    self.finish(Err(AudioError::Os(failure)))
                } else {
                    self.finish(Err(AudioError::OutOfOrder))
                }
            },
        }
    }
}

/// Starts building the private aggregate that captures `input_uid` and
/// `output_uid` through a fresh stereo global tap, named `aggregate_device_name`
/// with UID `aggregate_device_uid`, its clock following `clock`.
pub fn create_aggregate_device(
    input_uid: &str,
    output_uid: &str,
    aggregate_device_name: &str,
    aggregate_device_uid: &str,
    clock: ClockSource,
) -> (r: (AggregateSetup, HalRequest))
    ensures
        r.0@ == setup_start(
            capture_description(
                input_uid@,
                output_uid@,
                aggregate_device_name@,
                aggregate_device_uid@,
                r.0.tap.uuid@,
                clock,
            ),
            r.0.tap@,
        ),
        !r.0.tap.mono,
        r.0.tap.excluded_processes@.len() == 0,
        is_hyphenated_uuid(r.0.tap.uuid@),
        r.1@ == RequestModel::ListDevices,
{
    let tap = CATapDescription::new_stereo_global_tap_but_exclude(Vec::new());
    let description = AggregateDescription::for_capture(
        input_uid,
        output_uid,
        aggregate_device_name,
        aggregate_device_uid,
        tap.uuid.as_str(),
        clock,
    );
    AggregateSetup::new(description, tap)
}

/// What the HAL does with one request: fail with a status, or succeed (a
/// creation then hands out this ID).
pub enum HalOutcome {
    Fail(i32),
    Succeed(u32),
}

/// The device list without the devices whose ID is `id`.
pub open spec fn without_id(dir: Seq<DeviceModel>, id: u32) -> Seq<DeviceModel>
    decreases dir.len(),
{
    if dir.len() == 0 {
        dir
    } else {
        let rest = without_id(dir.drop_last(), id);
        if dir.last().id == id {
            rest
        } else {
            rest.push(dir.last())
        }
    }
}

/// How a HAL that keeps the device list `dir` answers `req`, and its device
/// list afterwards: a listing reports `dir`, a destruction removes the ID, an
/// aggregate creation adds a device of the description's name and UID.
pub open spec fn hal_respond(dir: Seq<DeviceModel>, req: RequestModel, o: HalOutcome) -> (
    ReplyModel,
    Seq<DeviceModel>,
) {
    match req {
        RequestModel::ListDevices => match o {
            HalOutcome::Fail(status) => (ReplyModel::Devices(Err(status)), dir),
            HalOutcome::Succeed(_) => (ReplyModel::Devices(Ok(dir)), dir),
        },
        RequestModel::DestroyDevice(id) => match o {
            HalOutcome::Fail(status) => (ReplyModel::Destroyed(Err(status)), dir),
            HalOutcome::Succeed(_) => (ReplyModel::Destroyed(Ok(())), without_id(dir, id)),
        },
        RequestModel::CreateTap(_) => match o {
            HalOutcome::Fail(status) => (ReplyModel::TapCreated(Err(status)), dir),
            HalOutcome::Succeed(tap_id) => (ReplyModel::TapCreated(Ok(tap_id)), dir),
        },
        RequestModel::CreateAggregate(d) => match o {
            HalOutcome::Fail(status) => (ReplyModel::AggregateCreated(Err(status)), dir),
            HalOutcome::Succeed(id) => (
                ReplyModel::AggregateCreated(Ok(id)),
                dir.push(DeviceModel { id, name: d.name, uid: d.uid }),
            ),
        },
        RequestModel::DestroyTap(_) => match o {
            HalOutcome::Fail(status) => (ReplyModel::TapDestroyed(Err(status)), dir),
            HalOutcome::Succeed(_) => (ReplyModel::TapDestroyed(Ok(())), dir),
        },
        // a finished construction asks nothing; a run stops before this arm
        RequestModel::Finished(_) => (ReplyModel::Devices(Ok(dir)), dir),
    }
}

/// The machine run against such a HAL, one outcome per request, until it
/// finishes or the outcomes run out: its state, its last request and the
/// HAL's device list.
pub open spec fn run_setup(
    s: SetupModel,
    req: RequestModel,
    dir: Seq<DeviceModel>,
    outcomes: Seq<HalOutcome>,
) -> (SetupModel, RequestModel, Seq<DeviceModel>)
    decreases outcomes.len(),
{
    if outcomes.len() == 0 || req is Finished {
        (s, req, dir)
    } else {
        let (reply, next_dir) = hal_respond(dir, req, outcomes[0]);
        let (next, next_req) = setup_step(s, reply);
        run_setup(next, next_req, next_dir, outcomes.drop_first())
    }
}

pub open spec fn named_ids_within(dir: Seq<DeviceModel>, name: Seq<char>, ids: Seq<u32>) -> bool {
    forall|i: int| 0 <= i < dir.len() && (#[trigger] dir[i]).name == name ==> ids.contains(dir[i].id)
}

/// What holds between the machine and the HAL's device list at each request.
pub open spec fn setup_inv(
    s: SetupModel,
    req: RequestModel,
    dir: Seq<DeviceModel>,
    description: DescriptionModel,
    tap: TapDescriptionModel,
) -> bool {
    &&& s.description == description
    &&& s.tap == tap
    &&& match s.phase {
        SetupPhase::Listing => req == RequestModel::ListDevices,
        SetupPhase::RemovingStale => s.stale.len() > 0 && req == RequestModel::DestroyDevice(
            s.stale.last(),
        ) && named_ids_within(dir, description.name, s.stale),
        SetupPhase::CreatingTap => req == RequestModel::CreateTap(tap) && !has_device_named(
            dir,
            description.name,
        ),
        SetupPhase::CreatingAggregate => req == RequestModel::CreateAggregate(description)
            && !has_device_named(dir, description.name),
        SetupPhase::DestroyingTap => req == RequestModel::DestroyTap(s.tap_id) && !has_device_named(
            dir,
            description.name,
        ),
        SetupPhase::Done => req is Finished && match req {
            RequestModel::Finished(Ok(dev)) => named_ids_within(
                dir,
                description.name,
                seq![dev.aggregate_device_id],
            ),
            _ => true,
        },
    }
}

proof fn lemma_without_id_subset(dir: Seq<DeviceModel>, id: u32, i: int)
    requires
        0 <= i < without_id(dir, id).len(),
    ensures
        without_id(dir, id)[i].id != id,
        dir.contains(without_id(dir, id)[i]),
    decreases dir.len(),
{
    let rest = without_id(dir.drop_last(), id);
    if dir.last().id == id || i < rest.len() {
        lemma_without_id_subset(dir.drop_last(), id, i);
        let k = choose|k: int| 0 <= k < dir.drop_last().len() && dir.drop_last()[k] == rest[i];
        assert(dir[k] == rest[i]);
    } else {
        assert(without_id(dir, id)[i] == dir.last());
        assert(dir[dir.len() - 1] == dir.last());
    }
}

proof fn lemma_setup_step_inv(
    s: SetupModel,
    req: RequestModel,
    dir: Seq<DeviceModel>,
    description: DescriptionModel,
    tap: TapDescriptionModel,
    o: HalOutcome,
)
    requires
        setup_inv(s, req, dir, description, tap),
        !(req is Finished),
    ensures
        ({
            let (reply, next_dir) = hal_respond(dir, req, o);
            let (next, next_req) = setup_step(s, reply);
            setup_inv(next, next_req, next_dir, description, tap)
        }),
{
    let name = description.name;
    let (reply, next_dir) = hal_respond(dir, req, o);
    let (next, next_req) = setup_step(s, reply);
    match s.phase {
        SetupPhase::Listing => {
            if let HalOutcome::Succeed(_) = o {
                let ids = ids_named(dir, name);
                assert forall|i: int| 0 <= i < dir.len() && (#[trigger] dir[i]).name == name implies ids.contains(
                    dir[i].id,
                ) by {
                    lemma_ids_named_complete(dir, name, i);
                }
                if ids.len() == 0 && has_device_named(dir, name) {
                    let i = choose|i: int| 0 <= i < dir.len() && (#[trigger] dir[i]).name == name;
                    assert(ids.contains(dir[i].id));
                }
            }
        },
        SetupPhase::RemovingStale => {
            if let HalOutcome::Succeed(_) = o {
                let id = s.stale.last();
                let rest = s.stale.drop_last();
                assert forall|i: int|
                    0 <= i < next_dir.len() && (#[trigger] next_dir[i]).name == name implies rest.contains(
                    next_dir[i].id,
                ) by {
                    lemma_without_id_subset(dir, id, i);
                    let k = choose|k: int| 0 <= k < dir.len() && dir[k] == next_dir[i];
                    assert(dir[k].name == name);
                    assert(s.stale.contains(dir[k].id));
                    let m = choose|m: int| 0 <= m < s.stale.len() && s.stale[m] == dir[k].id;
                    assert(m != s.stale.len() - 1);
                    assert(rest[m] == next_dir[i].id);
                }
                if rest.len() == 0 && has_device_named(next_dir, name) {
                    let i = choose|i: int|
                        0 <= i < next_dir.len() && (#[trigger] next_dir[i]).name == name;
                    assert(rest.contains(next_dir[i].id));
                }
            }
        },
        SetupPhase::CreatingTap => {},
        SetupPhase::DestroyingTap => {},
        SetupPhase::CreatingAggregate => {
            if let HalOutcome::Succeed(id) = o {
                assert forall|i: int|
                    0 <= i < next_dir.len() && (#[trigger] next_dir[i]).name == name implies seq![
                    id,
                ].contains(next_dir[i].id) by {
                    if i < dir.len() {
                        assert(dir[i] == next_dir[i]);
                        assert(has_device_named(dir, name));
                    } else {
                        assert(seq![id][0] == next_dir[i].id);
                    }
                }
            }
        },
        SetupPhase::Done => {},
    }
}

proof fn lemma_run_setup_inv(
    s: SetupModel,
    req: RequestModel,
    dir: Seq<DeviceModel>,
    outcomes: Seq<HalOutcome>,
    description: DescriptionModel,
    tap: TapDescriptionModel,
)
    requires
        setup_inv(s, req, dir, description, tap),
    ensures
        ({
            let (last, last_req, last_dir) = run_setup(s, req, dir, outcomes);
            setup_inv(last, last_req, last_dir, description, tap)
        }),
    decreases outcomes.len(),
{
    if outcomes.len() == 0 || req is Finished {
    } else {
        let (reply, next_dir) = hal_respond(dir, req, outcomes[0]);
        let (next, next_req) = setup_step(s, reply);
        lemma_setup_step_inv(s, req, dir, description, tap, outcomes[0]);
        lemma_run_setup_inv(next, next_req, next_dir, outcomes.drop_first(), description, tap);
    }
}

proof fn lemma_without_id_keeps(dir: Seq<DeviceModel>, id: u32, e: DeviceModel)
    requires
        dir.contains(e),
        e.id != id,
    ensures
        without_id(dir, id).contains(e),
    decreases dir.len(),
{
    let rest = without_id(dir.drop_last(), id);
    let k = choose|k: int| 0 <= k < dir.len() && dir[k] == e;
    if k == dir.len() - 1 {
        assert(without_id(dir, id) == rest.push(e));
        assert(without_id(dir, id)[rest.len() as int] == e);
    } else {
        assert(dir.drop_last()[k] == e);
        lemma_without_id_keeps(dir.drop_last(), id, e);
        let m = choose|m: int| 0 <= m < rest.len() && rest[m] == e;
        if dir.last().id != id {
            assert(without_id(dir, id)[m] == e);
        }
    }
}

proof fn lemma_ids_named_sound(devices: Seq<DeviceModel>, name: Seq<char>, k: int)
    requires
        0 <= k < ids_named(devices, name).len(),
    ensures
        exists|i: int|
            0 <= i < devices.len() && (#[trigger] devices[i]).name == name && devices[i].id
                == ids_named(devices, name)[k],
    decreases devices.len(),
{
    let rest = ids_named(devices.drop_last(), name);
    if k < rest.len() {
        lemma_ids_named_sound(devices.drop_last(), name, k);
        let i = choose|i: int|
            0 <= i < devices.drop_last().len() && (#[trigger] devices.drop_last()[i]).name == name
                && devices.drop_last()[i].id == rest[k];
        assert(devices[i] == devices.drop_last()[i]);
    } else {
        assert(devices[devices.len() - 1] == devices.last());
    }
}

/// No two devices of the list share an ID.
pub open spec fn unique_ids(dir: Seq<DeviceModel>) -> bool {
    forall|i: int, j: int|
        0 <= i < dir.len() && 0 <= j < dir.len() && (#[trigger] dir[i]).id == (#[trigger] dir[j]).id
            ==> i == j
}

/// The outcome hands out no ID that a device of `dir` already has.
pub open spec fn fresh_outcome(dir: Seq<DeviceModel>, o: HalOutcome) -> bool {
    match o {
        HalOutcome::Succeed(id) => forall|j: int| 0 <= j < dir.len() ==> (#[trigger] dir[j]).id != id,
        HalOutcome::Fail(_) => true,
    }
}

/// The device a successful construction adds to the HAL.
pub open spec fn built_device(description: DescriptionModel, id: u32) -> DeviceModel {
    DeviceModel { id, name: description.name, uid: description.uid }
}

/// Some device of `dir` called `name` has the ID `id`.
pub open spec fn id_of_named(dir: Seq<DeviceModel>, name: Seq<char>, id: u32) -> bool {
    exists|j: int| 0 <= j < dir.len() && (#[trigger] dir[j]).name == name && dir[j].id == id
}

/// What a run keeps of the device list `dir0` it started from.
pub open spec fn keeps_inv(
    s: SetupModel,
    req: RequestModel,
    dir0: Seq<DeviceModel>,
    dir: Seq<DeviceModel>,
    description: DescriptionModel,
) -> bool {
    &&& forall|i: int|
        0 <= i < dir0.len() && (#[trigger] dir0[i]).name != description.name ==> dir.contains(
            dir0[i],
        )
    &&& forall|i: int|
        0 <= i < dir.len() ==> dir0.contains(#[trigger] dir[i]) || match req {
            RequestModel::Finished(Ok(dev)) => dir[i] == built_device(
                description,
                dev.aggregate_device_id,
            ),
            _ => false,
        }
    &&& s.phase == SetupPhase::RemovingStale ==> forall|k: int|
        0 <= k < s.stale.len() ==> id_of_named(dir0, description.name, #[trigger] s.stale[k])
    &&& match req {
        RequestModel::Finished(Ok(dev)) => dir.contains(
            built_device(description, dev.aggregate_device_id),
        ) && forall|j: int| 0 <= j < dir0.len() ==> (#[trigger] dir0[j]).id != dev.aggregate_device_id,
        _ => true,
    }
}

proof fn lemma_setup_step_keeps(
    s: SetupModel,
    req: RequestModel,
    dir0: Seq<DeviceModel>,
    dir: Seq<DeviceModel>,
    description: DescriptionModel,
    tap: TapDescriptionModel,
    o: HalOutcome,
)
    requires
        setup_inv(s, req, dir, description, tap),
        keeps_inv(s, req, dir0, dir, description),
        unique_ids(dir0),
        fresh_outcome(dir0, o),
        !(req is Finished),
    ensures
        ({
            let (reply, next_dir) = hal_respond(dir, req, o);
            let (next, next_req) = setup_step(s, reply);
            keeps_inv(next, next_req, dir0, next_dir, description)
        }),
{
    let name = description.name;
    let (reply, next_dir) = hal_respond(dir, req, o);
    let (next, next_req) = setup_step(s, reply);
    match s.phase {
        SetupPhase::Listing => {
            if let HalOutcome::Succeed(_) = o {
                let ids = ids_named(dir, name);
                if ids.len() > 0 {
                    assert forall|k: int| 0 <= k < ids.len() implies id_of_named(
                        dir0,
                        name,
                        #[trigger] ids[k],
                    ) by {
                        lemma_ids_named_sound(dir, name, k);
                        let i = choose|i: int|
                            0 <= i < dir.len() && (#[trigger] dir[i]).name == name && dir[i].id
                                == ids[k];
                        assert(dir0.contains(dir[i]));
                        let j = choose|j: int| 0 <= j < dir0.len() && dir0[j] == dir[i];
                        assert(dir0[j].name == name);
                    }
                }
            }
        },
        SetupPhase::RemovingStale => {
            if let HalOutcome::Succeed(_) = o {
                let id = s.stale.last();
                let rest = s.stale.drop_last();
                assert(id_of_named(dir0, name, s.stale[s.stale.len() - 1]));
                let jj = choose|j: int|
                    0 <= j < dir0.len() && (#[trigger] dir0[j]).name == name && dir0[j].id
                        == s.stale[s.stale.len() - 1];
                assert forall|i: int|
                    0 <= i < dir0.len() && (#[trigger] dir0[i]).name != name implies next_dir.contains(
                    dir0[i],
                ) by {
                    assert(dir0[i].id != id);
                    lemma_without_id_keeps(dir, id, dir0[i]);
                }
                assert forall|i: int| 0 <= i < next_dir.len() implies dir0.contains(
                    #[trigger] next_dir[i],
                ) by {
                    lemma_without_id_subset(dir, id, i);
                    let k = choose|k: int| 0 <= k < dir.len() && dir[k] == next_dir[i];
                    assert(dir0.contains(dir[k]));
                }
                if rest.len() > 0 {
                    assert forall|k: int| 0 <= k < rest.len() implies id_of_named(
                        dir0,
                        name,
                        #[trigger] rest[k],
                    ) by {
                        assert(rest[k] == s.stale[k]);
                    }
                }
            }
        },
        SetupPhase::CreatingAggregate => {
            if let HalOutcome::Succeed(id) = o {
                let dev = built_device(description, id);
                assert(next_dir[dir.len() as int] == dev);
                assert forall|i: int|
                    0 <= i < dir0.len() && (#[trigger] dir0[i]).name != name implies next_dir.contains(
                    dir0[i],
                ) by {
                    let k = choose|k: int| 0 <= k < dir.len() && dir[k] == dir0[i];
                    assert(next_dir[k] == dir0[i]);
                }
                assert forall|i: int| 0 <= i < next_dir.len() implies dir0.contains(
                    #[trigger] next_dir[i],
                ) || next_dir[i] == dev by {
                    if i < dir.len() {
                        assert(next_dir[i] == dir[i]);
                    }
                }
            }
        },
        _ => {},
    }
}

proof fn lemma_run_setup_keeps(
    s: SetupModel,
    req: RequestModel,
    dir0: Seq<DeviceModel>,
    dir: Seq<DeviceModel>,
    outcomes: Seq<HalOutcome>,
    description: DescriptionModel,
    tap: TapDescriptionModel,
)
    requires
        setup_inv(s, req, dir, description, tap),
        keeps_inv(s, req, dir0, dir, description),
        unique_ids(dir0),
        forall|k: int| 0 <= k < outcomes.len() ==> fresh_outcome(dir0, #[trigger] outcomes[k]),
    ensures
        ({
            let (last, last_req, last_dir) = run_setup(s, req, dir, outcomes);
            setup_inv(last, last_req, last_dir, description, tap) && keeps_inv(
                last,
                last_req,
                dir0,
                last_dir,
                description,
            )
        }),
    decreases outcomes.len(),
{
    if outcomes.len() == 0 || req is Finished {
    } else {
        let (reply, next_dir) = hal_respond(dir, req, outcomes[0]);
        let (next, next_req) = setup_step(s, reply);
        lemma_setup_step_inv(s, req, dir, description, tap, outcomes[0]);
        lemma_setup_step_keeps(s, req, dir0, dir, description, tap, outcomes[0]);
        assert forall|k: int| 0 <= k < outcomes.drop_first().len() implies fresh_outcome(
            dir0,
            #[trigger] outcomes.drop_first()[k],
        ) by {
            assert(outcomes.drop_first()[k] == outcomes[k + 1]);
        }
        lemma_run_setup_keeps(next, next_req, dir0, next_dir, outcomes.drop_first(), description, tap);
    }
}

/// The outcome of a successful construction: whatever devices the HAL held
/// (no two with one ID) and however its calls turned out (handing out fresh
/// IDs), afterwards the new device is the one and only device of the
/// description's name, every device of another name is still there, and no
/// other device has appeared.
pub proof fn lemma_setup_result(
    description: DescriptionModel,
    tap: TapDescriptionModel,
    dir: Seq<DeviceModel>,
    outcomes: Seq<HalOutcome>,
)
    requires
        unique_ids(dir),
        forall|k: int| 0 <= k < outcomes.len() ==> fresh_outcome(dir, #[trigger] outcomes[k]),
    ensures
        ({
            let (last, last_req, last_dir) = run_setup(
                setup_start(description, tap),
                RequestModel::ListDevices,
                dir,
                outcomes,
            );
            match last_req {
                RequestModel::Finished(Ok(dev)) => {
                    &&& last_dir.contains(built_device(description, dev.aggregate_device_id))
                    &&& forall|i: int|
                        0 <= i < last_dir.len() && (#[trigger] last_dir[i]).name == description.name
                            ==> last_dir[i].id == dev.aggregate_device_id
                    &&& forall|i: int|
                        0 <= i < dir.len() && (#[trigger] dir[i]).name != description.name
                            ==> last_dir.contains(dir[i])
                    &&& forall|i: int|
                        0 <= i < last_dir.len() ==> dir.contains(#[trigger] last_dir[i])
                            || last_dir[i] == built_device(description, dev.aggregate_device_id)
                    &&& forall|j: int|
                        0 <= j < dir.len() ==> (#[trigger] dir[j]).id != dev.aggregate_device_id
                },
                _ => true,
            }
        }),
{
    let start = setup_start(description, tap);
    assert(keeps_inv(start, RequestModel::ListDevices, dir, dir, description)) by {
        assert forall|i: int| 0 <= i < dir.len() implies dir.contains(#[trigger] dir[i]) by {}
    }
    lemma_run_setup_inv(start, RequestModel::ListDevices, dir, outcomes, description, tap);
    lemma_run_setup_keeps(start, RequestModel::ListDevices, dir, dir, outcomes, description, tap);
    let (last, last_req, last_dir) = run_setup(start, RequestModel::ListDevices, dir, outcomes);
    if let RequestModel::Finished(Ok(dev)) = last_req {
        assert forall|i: int|
            0 <= i < last_dir.len() && (#[trigger] last_dir[i]).name == description.name
                implies last_dir[i].id == dev.aggregate_device_id by {
            assert(seq![dev.aggregate_device_id].contains(last_dir[i].id));
            let m = choose|m: int| 0 <= m < 1 && seq![dev.aggregate_device_id][m] == last_dir[i].id;
        }
    }
}

/// Creating an aggregate and then destroying it leaves the HAL's devices as
/// they were, less those of the aggregate's name: whatever devices the HAL
/// held (no two with one ID) and however its calls turned out (handing out
/// fresh IDs), when the construction succeeds, destroying the device it
/// returns leaves no device of the description's name, every device of
/// another name, and nothing else.
pub proof fn lemma_create_then_destroy_leaves_no_device(
    description: DescriptionModel,
    tap: TapDescriptionModel,
    dir: Seq<DeviceModel>,
    outcomes: Seq<HalOutcome>,
)
    requires
        unique_ids(dir),
        forall|k: int| 0 <= k < outcomes.len() ==> fresh_outcome(dir, #[trigger] outcomes[k]),
    ensures
        ({
            let (last, last_req, last_dir) = run_setup(
                setup_start(description, tap),
                RequestModel::ListDevices,
                dir,
                outcomes,
            );
            match last_req {
                RequestModel::Finished(Ok(dev)) => {
                    let after = without_id(last_dir, dev.aggregate_device_id);
                    &&& !has_device_named(after, description.name)
                    &&& forall|i: int|
                        0 <= i < dir.len() && (#[trigger] dir[i]).name != description.name
                            ==> after.contains(dir[i])
                    &&& forall|i: int| 0 <= i < after.len() ==> dir.contains(#[trigger] after[i])
                },
                _ => true,
            }
        }),
{
    lemma_setup_result(description, tap, dir, outcomes);
    let start = setup_start(description, tap);
    let (last, last_req, last_dir) = run_setup(start, RequestModel::ListDevices, dir, outcomes);
    if let RequestModel::Finished(Ok(dev)) = last_req {
        let id = dev.aggregate_device_id;
        let after = without_id(last_dir, id);
        if has_device_named(after, description.name) {
            let i = choose|i: int| 0 <= i < after.len() && (#[trigger] after[i]).name == description.name;
            lemma_without_id_subset(last_dir, id, i);
            let k = choose|k: int| 0 <= k < last_dir.len() && last_dir[k] == after[i];
            assert(last_dir[k].name == description.name);
        }
        assert forall|i: int|
            0 <= i < dir.len() && (#[trigger] dir[i]).name != description.name implies after.contains(
            dir[i],
        ) by {
            lemma_without_id_keeps(last_dir, id, dir[i]);
        }
        assert forall|i: int| 0 <= i < after.len() implies dir.contains(#[trigger] after[i]) by {
            lemma_without_id_subset(last_dir, id, i);
            let k = choose|k: int| 0 <= k < last_dir.len() && last_dir[k] == after[i];
        }
    }
}

/// Every request a run makes, in order: the first one, then one more after
/// each answer, up to `Finished` or the last outcome.
pub open spec fn run_requests(
    s: SetupModel,
    req: RequestModel,
    dir: Seq<DeviceModel>,
    outcomes: Seq<HalOutcome>,
) -> Seq<RequestModel>
    decreases outcomes.len(),
{
    if outcomes.len() == 0 || req is Finished {
        seq![req]
    } else {
        let (reply, next_dir) = hal_respond(dir, req, outcomes[0]);
        let (next, next_req) = setup_step(s, reply);
        seq![req] + run_requests(next, next_req, next_dir, outcomes.drop_first())
    }
}

proof fn lemma_refused_tap_from(
    s: SetupModel,
    req: RequestModel,
    dir: Seq<DeviceModel>,
    outcomes: Seq<HalOutcome>,
    description: DescriptionModel,
    tap: TapDescriptionModel,
    k: int,
    status: i32,
)
    requires
        setup_inv(s, req, dir, description, tap),
        s.phase == SetupPhase::Listing || s.phase == SetupPhase::RemovingStale || s.phase
            == SetupPhase::CreatingTap,
        0 <= k < outcomes.len(),
        k < run_requests(s, req, dir, outcomes).len(),
        run_requests(s, req, dir, outcomes)[k] is CreateTap,
        forall|j: int| 0 <= j < k ==> !(#[trigger] run_requests(s, req, dir, outcomes)[j] is CreateTap),
        outcomes[k] == HalOutcome::Fail(status),
    ensures
        ({
            let r = run_requests(s, req, dir, outcomes);
            &&& r.len() == k + 2
            &&& r[k + 1] == RequestModel::Finished(Err(AudioError::Os(status)))
            &&& forall|j: int| 0 <= j < r.len() ==> !(#[trigger] r[j] is CreateAggregate)
        }),
    decreases outcomes.len(),
{
    let r = run_requests(s, req, dir, outcomes);
    let (reply, next_dir) = hal_respond(dir, req, outcomes[0]);
    let (next, next_req) = setup_step(s, reply);
    let rest = run_requests(next, next_req, next_dir, outcomes.drop_first());
    assert(r == seq![req] + rest);
    assert(r[0] == req);
    if k == 0 {
        assert(rest == seq![next_req]);
    } else {
        lemma_setup_step_inv(s, req, dir, description, tap, outcomes[0]);
        if next_req is Finished {
            assert(rest == seq![next_req]);
        } else {
            assert(next.phase == SetupPhase::Listing || next.phase == SetupPhase::RemovingStale
                || next.phase == SetupPhase::CreatingTap);
            assert forall|j: int| 0 <= j < k - 1 implies !(#[trigger] rest[j] is CreateTap) by {
                assert(rest[j] == r[j + 1]);
            }
            assert(rest[k - 1] == r[k]);
            assert(outcomes.drop_first()[k - 1] == outcomes[k]);
            lemma_refused_tap_from(
                next,
                next_req,
                next_dir,
                outcomes.drop_first(),
                description,
                tap,
                k - 1,
                status,
            );
            assert forall|j: int| 0 <= j < r.len() implies !(#[trigger] r[j] is CreateAggregate) by {
                if j > 0 {
                    assert(r[j] == rest[j - 1]);
                }
            }
        }
    }
}

/// A refused tap ends the construction: whatever devices the HAL held and
/// however its other calls turned out, when the HAL refuses the tap with a
/// status, the next request is `Finished` with that status, nothing follows,
/// and no aggregate creation is requested at any point of the run.
pub proof fn lemma_refused_tap_ends_setup(
    description: DescriptionModel,
    tap: TapDescriptionModel,
    dir: Seq<DeviceModel>,
    outcomes: Seq<HalOutcome>,
    k: int,
    status: i32,
)
    requires
        0 <= k < outcomes.len(),
        k < run_requests(setup_start(description, tap), RequestModel::ListDevices, dir, outcomes).len(),
        run_requests(setup_start(description, tap), RequestModel::ListDevices, dir, outcomes)[k] is CreateTap,
        forall|j: int|
            0 <= j < k ==> !(#[trigger] run_requests(
                setup_start(description, tap),
                RequestModel::ListDevices,
                dir,
                outcomes,
            )[j] is CreateTap),
        outcomes[k] == HalOutcome::Fail(status),
    ensures
        ({
            let r = run_requests(setup_start(description, tap), RequestModel::ListDevices, dir, outcomes);
            &&& r.len() == k + 2
            &&& r[k + 1] == RequestModel::Finished(Err(AudioError::Os(status)))
            &&& forall|j: int| 0 <= j < r.len() ==> !(#[trigger] r[j] is CreateAggregate)
        }),
{
    lemma_refused_tap_from(
        setup_start(description, tap),
        RequestModel::ListDevices,
        dir,
        outcomes,
        description,
        tap,
        k,
        status,
    );
}

} // verus!
