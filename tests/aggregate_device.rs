use audio_tap::aggregate::{
    create_aggregate_device, AggregateSetup, CreateAggregateDeviceResult, HalReply, HalRequest,
    SetupPhase,
};
use audio_tap::description::{
    AggregateDescription, ClockSource, Property, PropertyKey, PropertyValue, TapBinding,
};
use audio_tap::directory::DeviceInfo;
use audio_tap::error::AudioError;
use audio_tap::tap::CATapDescription;

/// An in-memory stand-in for the OS audio HAL.
struct FakeHal {
    devices: Vec<DeviceInfo>,
    next_id: u32,
    fail_tap: Option<i32>,
    fail_aggregate: Option<i32>,
    taps: Vec<u32>,
    log: Vec<String>,
}

impl FakeHal {
    fn new() -> Self {
        FakeHal {
            devices: vec![
                DeviceInfo { id: 1, name: "Mic".to_string(), uid: "mic-uid".to_string() },
                DeviceInfo { id: 2, name: "Speakers".to_string(), uid: "spk-uid".to_string() },
            ],
            next_id: 100,
            fail_tap: None,
            fail_aggregate: None,
            taps: Vec::new(),
            log: Vec::new(),
        }
    }

    fn answer(&mut self, request: &HalRequest) -> HalReply {
        match request {
            HalRequest::ListDevices => {
                self.log.push("list".to_string());
                HalReply::Devices(Ok(self.devices.clone()))
            }
            HalRequest::DestroyDevice(id) => {
                self.log.push(format!("destroy {}", id));
                let before = self.devices.len();
                self.devices.retain(|d| d.id != *id);
                if self.devices.len() == before {
                    HalReply::Destroyed(Err(-50))
                } else {
                    HalReply::Destroyed(Ok(()))
                }
            }
            HalRequest::CreateTap(_) => {
                self.log.push("tap".to_string());
                match self.fail_tap {
                    Some(status) => HalReply::TapCreated(Err(status)),
                    None => {
                        self.next_id += 1;
                        self.taps.push(self.next_id);
                        HalReply::TapCreated(Ok(self.next_id))
                    }
                }
            }
            HalRequest::CreateAggregate(d) => {
                self.log.push("aggregate".to_string());
                if let Some(status) = self.fail_aggregate {
                    return HalReply::AggregateCreated(Err(status));
                }
                if self.devices.iter().any(|x| x.uid == d.uid) {
                    return HalReply::AggregateCreated(Err(1852797029));
                }
                self.next_id += 1;
                self.devices.push(DeviceInfo { id: self.next_id, name: d.name.clone(), uid: d.uid.clone() });
                HalReply::AggregateCreated(Ok(self.next_id))
            }
            HalRequest::DestroyTap(id) => {
                self.log.push(format!("destroy tap {}", id));
                self.taps.retain(|t| t != id);
                HalReply::TapDestroyed(Ok(()))
            }
            HalRequest::Finished(_) => unreachable!(),
        }
    }

    fn run(
        &mut self,
        (mut setup, mut request): (AggregateSetup, HalRequest),
    ) -> Result<CreateAggregateDeviceResult, AudioError> {
        loop {
            if let HalRequest::Finished(result) = request {
                return result;
            }
            let reply = self.answer(&request);
            request = setup.step(reply);
        }
    }

    fn named(&self, name: &str) -> usize {
        self.devices.iter().filter(|d| d.name == name).count()
    }
}

fn test_agg() -> (AggregateSetup, HalRequest) {
    create_aggregate_device("mic-uid", "spk-uid", "Test-Agg", "test-agg-uid", ClockSource::Input)
}

#[test]
fn creating_twice_removes_the_lingering_device_first() {
    let mut hal = FakeHal::new();
    let first = hal.run(test_agg()).unwrap();
    assert_eq!(hal.named("Test-Agg"), 1);
    hal.log.clear();
    let second = hal.run(test_agg()).unwrap();
    assert_ne!(second.aggregate_device_id, first.aggregate_device_id);
    assert_eq!(
        hal.log,
        vec![
            "list".to_string(),
            format!("destroy {}", first.aggregate_device_id),
            "tap".to_string(),
            "aggregate".to_string()
        ]
    );
    assert_eq!(hal.named("Test-Agg"), 1);
    assert!(hal.devices.iter().any(|d| d.id == second.aggregate_device_id));
}

#[test]
fn tap_failure_never_creates_the_aggregate() {
    let mut hal = FakeHal::new();
    hal.fail_tap = Some(560947818);
    let result = hal.run(test_agg());
    assert_eq!(result, Err(AudioError::Os(560947818)));
    assert!(!hal.log.contains(&"aggregate".to_string()));
    assert_eq!(hal.named("Test-Agg"), 0);
    assert_eq!(hal.devices.len(), 2);
}

#[test]
fn create_then_destroy_leaves_no_device_of_that_name() {
    let mut hal = FakeHal::new();
    hal.devices.push(DeviceInfo { id: 50, name: "Test-Agg".to_string(), uid: "old-1".to_string() });
    hal.devices.push(DeviceInfo { id: 51, name: "Test-Agg".to_string(), uid: "old-2".to_string() });
    let dev = hal.run(test_agg()).unwrap();
    assert_eq!(hal.named("Test-Agg"), 1);
    let reply = hal.answer(&HalRequest::DestroyDevice(dev.aggregate_device_id));
    assert!(matches!(reply, HalReply::Destroyed(Ok(()))));
    assert_eq!(hal.named("Test-Agg"), 0);
    assert_eq!(hal.devices.len(), 2);
}

#[test]
fn failures_report_the_hal_status() {
    let mut hal = FakeHal::new();
    hal.fail_aggregate = Some(-10);
    assert_eq!(hal.run(test_agg()), Err(AudioError::Os(-10)));

    let (mut setup, _) = test_agg();
    let next = setup.step(HalReply::Devices(Err(-3)));
    assert!(matches!(next, HalRequest::Finished(Err(AudioError::Os(-3)))));

    let mut hal = FakeHal::new();
    hal.devices.push(DeviceInfo { id: 50, name: "Test-Agg".to_string(), uid: "old".to_string() });
    let (mut setup, _) = test_agg();
    let next = setup.step(HalReply::Devices(Ok(hal.devices.clone())));
    assert!(matches!(next, HalRequest::DestroyDevice(50)));
    let next = setup.step(HalReply::Destroyed(Err(-7)));
    assert!(matches!(next, HalRequest::Finished(Err(AudioError::Os(-7)))));
    assert_eq!(setup.phase, SetupPhase::Done);
}

#[test]
fn reply_out_of_order_ends_the_setup() {
    let (mut setup, first) = test_agg();
    assert!(matches!(first, HalRequest::ListDevices));
    let next = setup.step(HalReply::AggregateCreated(Ok(9)));
    assert!(matches!(next, HalRequest::Finished(Err(AudioError::OutOfOrder))));
    let next = setup.step(HalReply::Devices(Ok(vec![])));
    assert!(matches!(next, HalRequest::Finished(Err(AudioError::OutOfOrder))));
}

#[test]
fn the_aggregate_request_carries_the_tap_uuid() {
    let (mut setup, _) = test_agg();
    let uuid = setup.tap.get_uuid();
    assert_eq!(uuid.len(), 36);
    let next = setup.step(HalReply::Devices(Ok(vec![])));
    match next {
        HalRequest::CreateTap(tap) => {
            assert_eq!(tap.uuid, uuid);
            assert!(!tap.mono);
        }
        _ => panic!("expected the tap request"),
    }
    let next = setup.step(HalReply::TapCreated(Ok(77)));
    match next {
        HalRequest::CreateAggregate(d) => {
            assert_eq!(d.taps, vec![TapBinding { uuid: uuid.clone(), drift_compensation: false }]);
            assert_eq!(d.sub_devices, vec!["mic-uid".to_string(), "spk-uid".to_string()]);
            assert_eq!(d.main_sub_device, "spk-uid");
            assert_eq!(d.clock_device, Some("mic-uid".to_string()));
        }
        _ => panic!("expected the aggregate request"),
    }
    let next = setup.step(HalReply::AggregateCreated(Ok(300)));
    assert!(matches!(
        next,
        HalRequest::Finished(Ok(CreateAggregateDeviceResult { tap_id: 77, aggregate_device_id: 300 }))
    ));
}

#[test]
fn fresh_taps_have_distinct_uuids() {
    let a = CATapDescription::new_stereo_global_tap_but_exclude(vec![]);
    let b = CATapDescription::new_mono_global_tap_but_exclude(vec![12, 34]);
    assert_ne!(a.get_uuid(), b.get_uuid());
    assert!(b.mono);
    assert_eq!(b.excluded_processes, vec![12, 34]);
    for u in [a.get_uuid(), b.get_uuid()] {
        for (i, c) in u.chars().enumerate() {
            if [8, 13, 18, 23].contains(&i) {
                assert_eq!(c, '-');
            } else {
                assert!(c.is_ascii_digit() || ('A'..='F').contains(&c));
            }
        }
    }
}

#[test]
fn property_dictionary_is_stable_when_rebuilt_from_components() {
    let d = AggregateDescription::for_capture("mic-uid", "spk-uid", "Test-Agg", "test-agg-uid", "ABC", ClockSource::Output);
    let rebuilt = AggregateDescription::for_capture(
        &d.sub_devices[0],
        &d.main_sub_device,
        &d.name,
        &d.uid,
        &d.taps[0].uuid,
        ClockSource::Output,
    );
    assert_eq!(d.properties(), rebuilt.properties());
    assert_eq!(d.copy(), d);
    let props = d.properties();
    assert_eq!(
        props.iter().map(|p| p.key).collect::<Vec<_>>(),
        vec![
            PropertyKey::Name,
            PropertyKey::Uid,
            PropertyKey::MainSubDevice,
            PropertyKey::ClockDevice,
            PropertyKey::IsPrivate,
            PropertyKey::TapAutoStart,
            PropertyKey::SubDeviceList,
            PropertyKey::TapList
        ]
    );
    assert_eq!(props[3], Property { key: PropertyKey::ClockDevice, value: PropertyValue::Text("spk-uid".to_string()) });
    assert_eq!(props[4].value, PropertyValue::Flag(true));
}

#[test]
fn unset_clock_leaves_out_the_clock_entry() {
    let d = AggregateDescription::for_capture("a", "b", "n", "u", "t", ClockSource::Unset);
    let props = d.properties();
    assert_eq!(props.len(), 7);
    assert!(props.iter().all(|p| p.key != PropertyKey::ClockDevice));
    assert_eq!(props[0].value, PropertyValue::Text("n".to_string()));
}

#[test]
fn validity_needs_main_among_sub_devices() {
    let mut d = AggregateDescription::for_capture("a", "b", "n", "u", "t", ClockSource::Input);
    assert!(d.is_valid());
    d.main_sub_device = "c".to_string();
    assert!(!d.is_valid());
    d.sub_devices.clear();
    d.main_sub_device = "a".to_string();
    assert!(!d.is_valid());
}

#[test]
fn failed_aggregate_creation_destroys_its_tap() {
    let mut hal = FakeHal::new();
    hal.fail_aggregate = Some(-10);
    assert_eq!(hal.run(test_agg()), Err(AudioError::Os(-10)));
    assert!(hal.taps.is_empty());
    assert_eq!(hal.log[hal.log.len() - 2], "aggregate");
    assert!(hal.log[hal.log.len() - 1].starts_with("destroy tap "));
    assert_eq!(hal.named("Test-Agg"), 0);

    let (mut setup, _) = test_agg();
    setup.step(HalReply::Devices(Ok(vec![])));
    setup.step(HalReply::TapCreated(Ok(5)));
    let next = setup.step(HalReply::AggregateCreated(Err(-4)));
    assert!(matches!(next, HalRequest::DestroyTap(5)));
    let next = setup.step(HalReply::TapDestroyed(Err(-9)));
    assert!(matches!(next, HalRequest::Finished(Err(AudioError::Os(-4)))));
}

#[test]
fn repeated_cycles_keep_other_devices() {
    let mut hal = FakeHal::new();
    let before = hal.devices.clone();
    for _ in 0..3 {
        let dev = hal.run(test_agg()).unwrap();
        assert_eq!(hal.devices.iter().filter(|d| d.name == "Test-Agg").map(|d| d.id).collect::<Vec<_>>(), vec![dev.aggregate_device_id]);
        hal.answer(&HalRequest::DestroyDevice(dev.aggregate_device_id));
        assert_eq!(hal.devices, before);
    }
}
