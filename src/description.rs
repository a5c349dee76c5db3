//! The declarative description of a private aggregate device, and the
//! property dictionary that the OS audio HAL receives for it.

use vstd::prelude::*;

verus! {

/// Which sub-device, if any, is the aggregate's clock source.
#[derive(Clone, Copy, Debug, PartialEq, Eq, Structural)]
pub enum ClockSource {
    /// The input (microphone) device drives the clock.
    Input,
    /// The output (speaker) device drives the clock.
    Output,
    /// No clock device is named; the HAL picks one.
    Unset,
}

/// A tap bound into an aggregate: the tap's UUID and its drift-compensation flag.
#[derive(Clone, Debug, PartialEq, Eq)]
pub struct TapBinding {
    pub uuid: String,
    pub drift_compensation: bool,
}

/// The mathematical value of a `TapBinding`.
pub struct TapModel {
    pub uuid: Seq<char>,
    pub drift_compensation: bool,
}

impl View for TapBinding {
    type V = TapModel;

    open spec fn view(&self) -> TapModel {
        TapModel { uuid: self.uuid@, drift_compensation: self.drift_compensation }
    }
}

/// A declarative aggregate-device record.
#[derive(Clone, Debug, PartialEq, Eq)]
pub struct AggregateDescription {
    pub name: String,
    pub uid: String,
    pub sub_devices: Vec<String>,
    pub main_sub_device: String,
    pub clock_device: Option<String>,
    pub taps: Vec<TapBinding>,
    pub private: bool,
    pub auto_start_taps: bool,
}

/// The mathematical value of an `AggregateDescription`.
pub struct DescriptionModel {
    pub name: Seq<char>,
    pub uid: Seq<char>,
    pub sub_devices: Seq<Seq<char>>,
    pub main_sub_device: Seq<char>,
    pub clock_device: Option<Seq<char>>,
    pub taps: Seq<TapModel>,
    pub private: bool,
    pub auto_start_taps: bool,
}

pub open spec fn strings_view(v: Seq<String>) -> Seq<Seq<char>> {
    v.map_values(|s: String| s@)
}

pub open spec fn taps_view(v: Seq<TapBinding>) -> Seq<TapModel> {
    v.map_values(|t: TapBinding| t@)
}

pub open spec fn option_view(o: Option<String>) -> Option<Seq<char>> {
    match o {
        Some(s) => Some(s@),
        None => None,
    }
}

impl View for AggregateDescription {
    type V = DescriptionModel;

    open spec fn view(&self) -> DescriptionModel {
        DescriptionModel {
            name: self.name@,
            uid: self.uid@,
            sub_devices: strings_view(self.sub_devices@),
            main_sub_device: self.main_sub_device@,
            clock_device: option_view(self.clock_device),
            taps: taps_view(self.taps@),
            private: self.private,
            auto_start_taps: self.auto_start_taps,
        }
    }
}

/// At least one sub-device, and the main sub-device is one of them.
pub open spec fn description_wf(d: DescriptionModel) -> bool {
    &&& d.sub_devices.len() > 0
    &&& d.sub_devices.contains(d.main_sub_device)
}

/// The description the manager builds to capture an input and an output
/// device through one tap: both devices are sub-devices, the output is the
/// main one, the clock follows the policy, and the aggregate is private and
/// starts its taps by itself.
pub open spec fn capture_description(
    input_uid: Seq<char>,
    output_uid: Seq<char>,
    name: Seq<char>,
    uid: Seq<char>,
    tap_uuid: Seq<char>,
    clock: ClockSource,
) -> DescriptionModel {
    DescriptionModel {
        name,
        uid,
        sub_devices: seq![input_uid, output_uid],
        main_sub_device: output_uid,
        clock_device: match clock {
            ClockSource::Input => Some(input_uid),
            ClockSource::Output => Some(output_uid),
            ClockSource::Unset => None,
        },
        taps: seq![TapModel { uuid: tap_uuid, drift_compensation: false }],
        private: true,
        auto_start_taps: true,
    }
}

/// A key of the aggregate-device property dictionary.
#[derive(Clone, Copy, Debug, PartialEq, Eq, Structural)]
pub enum PropertyKey {
    Name,
    Uid,
    MainSubDevice,
    ClockDevice,
    IsPrivate,
    TapAutoStart,
    SubDeviceList,
    TapList,
}

/// A value of the property dictionary: a string, a flag, the list of
/// sub-device UIDs, or the list of tap entries.
#[derive(Clone, Debug, PartialEq, Eq)]
pub enum PropertyValue {
    Text(String),
    Flag(bool),
    SubDevices(Vec<String>),
    Taps(Vec<TapBinding>),
}

/// The mathematical value of a `PropertyValue`.
pub enum ValueModel {
    Text(Seq<char>),
    Flag(bool),
    SubDevices(Seq<Seq<char>>),
    Taps(Seq<TapModel>),
}

impl View for PropertyValue {
    type V = ValueModel;

    open spec fn view(&self) -> ValueModel {
        match self {
            PropertyValue::Text(s) => ValueModel::Text(s@),
            PropertyValue::Flag(b) => ValueModel::Flag(*b),
            PropertyValue::SubDevices(v) => ValueModel::SubDevices(strings_view(v@)),
            PropertyValue::Taps(v) => ValueModel::Taps(taps_view(v@)),
        }
    }
}

/// One entry of the property dictionary.
#[derive(Clone, Debug, PartialEq, Eq)]
pub struct Property {
    pub key: PropertyKey,
    pub value: PropertyValue,
}

pub open spec fn dict_view(d: Seq<Property>) -> Seq<(PropertyKey, ValueModel)> {
    d.map_values(|p: Property| (p.key, p.value@))
}

/// The property dictionary of a description, entry by entry, in a fixed order;
/// the clock entry appears only when a clock device is named.
pub open spec fn properties_of(d: DescriptionModel) -> Seq<(PropertyKey, ValueModel)> {
    seq![
        (PropertyKey::Name, ValueModel::Text(d.name)),
        (PropertyKey::Uid, ValueModel::Text(d.uid)),
        (PropertyKey::MainSubDevice, ValueModel::Text(d.main_sub_device)),
    ] + match d.clock_device {
        Some(c) => seq![(PropertyKey::ClockDevice, ValueModel::Text(c))],
        None => Seq::empty(),
    } + seq![
        (PropertyKey::IsPrivate, ValueModel::Flag(d.private)),
        (PropertyKey::TapAutoStart, ValueModel::Flag(d.auto_start_taps)),
        (PropertyKey::SubDeviceList, ValueModel::SubDevices(d.sub_devices)),
        (PropertyKey::TapList, ValueModel::Taps(d.taps)),
    ]
}

/// The parts a capture description is made of: input UID, output UID, name,
/// UID, tap UUID and clock policy.
pub open spec fn capture_components(d: DescriptionModel) -> (
    Seq<char>,
    Seq<char>,
    Seq<char>,
    Seq<char>,
    Seq<char>,
    ClockSource,
) {
    (
        d.sub_devices[0],
        d.main_sub_device,
        d.name,
        d.uid,
        d.taps[0].uuid,
        match d.clock_device {
            None => ClockSource::Unset,
            Some(c) => if c == d.sub_devices[0] {
                ClockSource::Input
            } else {
                ClockSource::Output
            },
        },
    )
}

/// A description built by the manager, taken apart into its device UIDs, tap
/// UUID, name, UID and clock policy and built again, yields the same property
/// dictionary, entry for entry.
pub proof fn lemma_rederived_properties_match(
    input_uid: Seq<char>,
    output_uid: Seq<char>,
    name: Seq<char>,
    uid: Seq<char>,
    tap_uuid: Seq<char>,
    clock: ClockSource,
)
    ensures
        ({
            let d = capture_description(input_uid, output_uid, name, uid, tap_uuid, clock);
            let c = capture_components(d);
            properties_of(capture_description(c.0, c.1, c.2, c.3, c.4, c.5)) == properties_of(d)
        }),
{
    let d = capture_description(input_uid, output_uid, name, uid, tap_uuid, clock);
    let c = capture_components(d);
    let e = capture_description(c.0, c.1, c.2, c.3, c.4, c.5);
    assert(e.sub_devices =~= d.sub_devices);
    assert(e.taps =~= d.taps);
    assert(e.clock_device == d.clock_device);
    assert(e == d);
}

/// A copy of a list of strings.
pub fn copy_strings(v: &Vec<String>) -> (r: Vec<String>)
    ensures
        r@ == v@,
{
    let mut r: Vec<String> = Vec::new();
    let mut i: usize = 0;
    while i < v.len()
        invariant
            0 <= i <= v@.len(),
            r@ == v@.subrange(0, i as int),
        decreases v@.len() - i,
    {
        r.push(v[i].clone());
        assert(r@ =~= v@.subrange(0, i + 1));
        i += 1;
    }
    assert(r@ =~= v@);
    r
}

/// A copy of a list of tap bindings.
pub fn copy_taps(v: &Vec<TapBinding>) -> (r: Vec<TapBinding>)
    ensures
        r@ == v@,
{
    let mut r: Vec<TapBinding> = Vec::new();
    let mut i: usize = 0;
    while i < v.len()
        invariant
            0 <= i <= v@.len(),
            r@ == v@.subrange(0, i as int),
        decreases v@.len() - i,
    {
        let t = TapBinding { uuid: v[i].uuid.clone(), drift_compensation: v[i].drift_compensation };
        r.push(t);
        assert(r@ =~= v@.subrange(0, i + 1));
        i += 1;
    }
    assert(r@ =~= v@);
    r
}

impl AggregateDescription {
    /// The description for capturing `input_uid` and `output_uid` through the
    /// tap `tap_uuid`, with the given clock policy.
    pub fn for_capture(
        input_uid: &str,
        output_uid: &str,
        name: &str,
        uid: &str,
        tap_uuid: &str,
        clock: ClockSource,
    ) -> (r: AggregateDescription)
        ensures
            r@ == capture_description(input_uid@, output_uid@, name@, uid@, tap_uuid@, clock),
            description_wf(r@),
    {
        let mut sub_devices: Vec<String> = Vec::new();
        sub_devices.push(input_uid.to_owned());
        sub_devices.push(output_uid.to_owned());
        let mut taps: Vec<TapBinding> = Vec::new();
        taps.push(TapBinding { uuid: tap_uuid.to_owned(), drift_compensation: false });
        let clock_device = match clock {
            ClockSource::Input => Some(input_uid.to_owned()),
            ClockSource::Output => Some(output_uid.to_owned()),
            ClockSource::Unset => None,
        };
        let r = AggregateDescription {
            name: name.to_owned(),
            uid: uid.to_owned(),
            sub_devices,
            main_sub_device: output_uid.to_owned(),
            clock_device,
            taps,
            private: true,
            auto_start_taps: true,
        };
        assert(r@.sub_devices =~= seq![input_uid@, output_uid@]);
        assert(r@.taps =~= seq![TapModel { uuid: tap_uuid@, drift_compensation: false }]);
        assert(r@.sub_devices[1] == r@.main_sub_device);
        r
    }

    /// An identical description.
    pub fn copy(&self) -> (r: AggregateDescription)
        ensures
            r@ == self@,
    {
        let clock_device = match &self.clock_device {
            Some(c) => Some(c.clone()),
            None => None,
        };
        AggregateDescription {
            name: self.name.clone(),
            uid: self.uid.clone(),
            sub_devices: copy_strings(&self.sub_devices),
            main_sub_device: self.main_sub_device.clone(),
            clock_device,
            taps: copy_taps(&self.taps),
            private: self.private,
            auto_start_taps: self.auto_start_taps,
        }
    }

    /// Whether the description has a sub-device and its main sub-device is
    /// among them.
    pub fn is_valid(&self) -> (r: bool)
        ensures
            r == description_wf(self@),
    {
        let mut i: usize = 0;
        while i < self.sub_devices.len()
            invariant
                0 <= i <= self.sub_devices@.len(),
                forall|j: int| 0 <= j < i ==> self.sub_devices@[j]@ != self.main_sub_device@,
            decreases self.sub_devices@.len() - i,
        {
            if self.sub_devices[i] == self.main_sub_device {
                assert(self@.sub_devices[i as int] == self@.main_sub_device);
                return true;
            }
            i += 1;
        }
        proof {
            if self@.sub_devices.contains(self@.main_sub_device) {
                let j = choose|j: int|
                    0 <= j < self@.sub_devices.len() && self@.sub_devices[j]
                        == self@.main_sub_device;
                assert(self.sub_devices@[j]@ == self.main_sub_device@);
            }
        }
        false
    }

    /// The property dictionary that the HAL receives for this description.
    pub fn properties(&self) -> (r: Vec<Property>)
        ensures
            dict_view(r@) == properties_of(self@),
    {
        let mut r: Vec<Property> = Vec::new();
        r.push(Property { key: PropertyKey::Name, value: PropertyValue::Text(self.name.clone()) });
        r.push(Property { key: PropertyKey::Uid, value: PropertyValue::Text(self.uid.clone()) });
        r.push(
            Property {
                key: PropertyKey::MainSubDevice,
                value: PropertyValue::Text(self.main_sub_device.clone()),
            },
        );
        match &self.clock_device {
            Some(c) => {
                r.push(Property { key: PropertyKey::ClockDevice, value: PropertyValue::Text(c.clone()) });
            },
            None => {},
        }
        r.push(Property { key: PropertyKey::IsPrivate, value: PropertyValue::Flag(self.private) });
        r.push(
            Property { key: PropertyKey::TapAutoStart, value: PropertyValue::Flag(self.auto_start_taps) },
        );
        r.push(
            Property {
                key: PropertyKey::SubDeviceList,
                value: PropertyValue::SubDevices(copy_strings(&self.sub_devices)),
            },
        );
        r.push(Property { key: PropertyKey::TapList, value: PropertyValue::Taps(copy_taps(&self.taps)) });
        assert(dict_view(r@) =~= properties_of(self@));
        r
    }
}

} // verus!
