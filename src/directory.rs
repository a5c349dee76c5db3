//! The device directory: lookups over the list of audio devices that the OS
//! reports.

use vstd::prelude::*;

use crate::error::AudioError;

verus! {

/// An audio device known to the OS: its process-local numeric ID, its
/// display name and its persistent UID.
#[derive(Clone, Debug, PartialEq, Eq)]
pub struct DeviceInfo {
    pub id: u32,
    pub name: String,
    pub uid: String,
}

/// The mathematical value of a `DeviceInfo`.
pub struct DeviceModel {
    pub id: u32,
    pub name: Seq<char>,
    pub uid: Seq<char>,
}

impl View for DeviceInfo {
    type V = DeviceModel;

    open spec fn view(&self) -> DeviceModel {
        DeviceModel { id: self.id, name: self.name@, uid: self.uid@ }
    }
}

pub open spec fn devices_view(v: Seq<DeviceInfo>) -> Seq<DeviceModel> {
    v.map_values(|d: DeviceInfo| d@)
}

pub open spec fn has_device_named(devices: Seq<DeviceModel>, name: Seq<char>) -> bool {
    exists|i: int| 0 <= i < devices.len() && (#[trigger] devices[i]).name == name
}

/// The IDs of the devices called `name`, in list order.
pub open spec fn ids_named(devices: Seq<DeviceModel>, name: Seq<char>) -> Seq<u32>
    decreases devices.len(),
{
    if devices.len() == 0 {
        Seq::empty()
    } else {
        let rest = ids_named(devices.drop_last(), name);
        if devices.last().name == name {
            rest.push(devices.last().id)
        } else {
            rest
        }
    }
}

/// Every device called `name` has its ID among `ids_named(devices, name)`.
pub proof fn lemma_ids_named_complete(devices: Seq<DeviceModel>, name: Seq<char>, i: int)
    requires
        0 <= i < devices.len(),
        devices[i].name == name,
    ensures
        ids_named(devices, name).contains(devices[i].id),
    decreases devices.len(),
{
    let rest = ids_named(devices.drop_last(), name);
    if i == devices.len() - 1 {
        assert(ids_named(devices, name).last() == devices[i].id);
    } else {
        lemma_ids_named_complete(devices.drop_last(), name, i);
        let k = choose|k: int| 0 <= k < rest.len() && rest[k] == devices[i].id;
        if devices.last().name == name {
            assert(ids_named(devices, name)[k] == devices[i].id);
        }
    }
}

/// The position of the first device called `name`, if any.
pub open spec fn first_named_index(devices: Seq<DeviceModel>, name: Seq<char>) -> Option<int> {
    if has_device_named(devices, name) {
        Some(
            choose|i: int|
                0 <= i < devices.len() && (#[trigger] devices[i]).name == name && forall|j: int|
                    0 <= j < i ==> (#[trigger] devices[j]).name != name,
        )
    } else {
        None
    }
}

/// The ID of the first device called `name`, if any.
pub open spec fn first_named(devices: Seq<DeviceModel>, name: Seq<char>) -> Option<u32> {
    match first_named_index(devices, name) {
        Some(i) => Some(devices[i].id),
        None => None,
    }
}

/// Whether a device called `target_name` exists.
pub fn check_device_exists(devices: &Vec<DeviceInfo>, target_name: &str) -> (r: bool)
    ensures
        r == has_device_named(devices_view(devices@), target_name@),
{
    find_device_by_name(devices, target_name).is_some()
}

/// The first device called `name`.
pub fn find_device_by_name(devices: &Vec<DeviceInfo>, name: &str) -> (r: Option<DeviceInfo>)
    ensures
        match first_named_index(devices_view(devices@), name@) {
            Some(i) => r is Some && r->Some_0@ == devices_view(devices@)[i],
            None => r is None,
        },
{
    let ghost view = devices_view(devices@);
    let wanted = name.to_owned();
    let mut i: usize = 0;
    while i < devices.len()
        invariant
            0 <= i <= devices@.len(),
            view == devices_view(devices@),
            wanted@ == name@,
            forall|j: int| 0 <= j < i ==> (#[trigger] view[j]).name != name@,
        decreases devices@.len() - i,
    {
        if devices[i].name == wanted {
            assert(view[i as int].name == name@);
            proof {
                let k = choose|k: int|
                    0 <= k < view.len() && (#[trigger] view[k]).name == name@ && forall|j: int|
                        0 <= j < k ==> (#[trigger] view[j]).name != name@;
                if k < i {
                } else if k > i {
                    assert(view[i as int].name != name@);
                }
            }
            return Some(
                DeviceInfo {
                    id: devices[i].id,
                    name: devices[i].name.clone(),
                    uid: devices[i].uid.clone(),
                },
            );
        }
        i += 1;
    }
    None
}

/// The UID of the device with numeric ID `id`.
pub fn uid_of(devices: &Vec<DeviceInfo>, id: u32) -> (r: Result<String, AudioError>)
    ensures
        match r {
            Ok(uid) => exists|i: int|
                0 <= i < devices@.len() && (#[trigger] devices@[i]).id == id && devices@[i].uid@
                    == uid@,
            Err(e) => e == AudioError::NotFound && forall|i: int|
                0 <= i < devices@.len() ==> (#[trigger] devices@[i]).id != id,
        },
{
    let mut i: usize = 0;
    while i < devices.len()
        invariant
            0 <= i <= devices@.len(),
            forall|j: int| 0 <= j < i ==> (#[trigger] devices@[j]).id != id,
        decreases devices@.len() - i,
    {
        if devices[i].id == id {
            return Ok(devices[i].uid.clone());
        }
        i += 1;
    }
    Err(AudioError::NotFound)
}

/// The device to make the default output: the first one called
/// `device_name`, or `NotFound`.
pub fn set_default_device(devices: &Vec<DeviceInfo>, device_name: &str) -> (r: Result<
    u32,
    AudioError,
>)
    ensures
        match first_named(devices_view(devices@), device_name@) {
            Some(id) => r == Ok::<u32, AudioError>(id),
            None => r == Err::<u32, AudioError>(AudioError::NotFound),
        },
{
    match find_device_by_name(devices, device_name) {
        Some(device) => Ok(device.id),
        None => Err(AudioError::NotFound),
    }
}

/// The IDs of all devices called `name`, in list order.
pub fn devices_named(devices: &Vec<DeviceInfo>, name: &String) -> (r: Vec<u32>)
    ensures
        r@ == ids_named(devices_view(devices@), name@),
{
    let ghost view = devices_view(devices@);
    let mut r: Vec<u32> = Vec::new();
    let mut i: usize = 0;
    while i < devices.len()
        invariant
            0 <= i <= devices@.len(),
            view == devices_view(devices@),
            r@ == ids_named(view.subrange(0, i as int), name@),
        decreases devices@.len() - i,
    {
        assert(view.subrange(0, i + 1).drop_last() =~= view.subrange(0, i as int));
        if devices[i].name == *name {
            r.push(devices[i].id);
        }
        i += 1;
    }
    assert(view.subrange(0, devices@.len() as int) =~= view);
    r
}

} // verus!
