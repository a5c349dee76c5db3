//! Descriptions of process taps: what the OS is asked to tap, and the UUID
//! by which an aggregate description refers to the tap.

use vstd::prelude::*;

verus! {

/// Whether tapped audio still reaches the device it was tapped from.
#[derive(Clone, Copy, Debug, PartialEq, Eq, Structural)]
pub enum CATapMuteBehavior {
    Unmuted,
    Muted,
    MutedWhenTapped,
}

/// The form of a UUID in upper-case hyphenated notation: 36 characters,
/// hyphens after the 8th, 12th, 16th and 20th hex digit, hex digits elsewhere.
pub open spec fn is_hyphenated_uuid(s: Seq<char>) -> bool {
    &&& s.len() == 36
    &&& forall|i: int|
        0 <= i < 36 ==> if i == 8 || i == 13 || i == 18 || i == 23 {
            #[trigger] s[i] == '-'
        } else {
            ('0' <= s[i] <= '9') || ('A' <= s[i] <= 'F')
        }
}

/// Relies on uuid's `Uuid::new_v4` for a random UUID and on
/// `Hyphenated::encode_upper` for its upper-case hyphenated form.
#[verifier::external_body]
fn fresh_uuid() -> (r: String)
    ensures
        is_hyphenated_uuid(r@),
{
    let mut buffer = [0u8; 36];
    uuid::Uuid::new_v4().hyphenated().encode_upper(&mut buffer).to_string()
}

/// A request for a global tap on the system's audio output.
pub struct CATapDescription {
    /// Whether the tap mixes down to mono (otherwise it is stereo).
    pub mono: bool,
    /// Processes whose audio the tap leaves out.
    pub excluded_processes: Vec<i32>,
    pub mute_behavior: CATapMuteBehavior,
    /// The UUID that names the tap inside an aggregate description.
    pub uuid: String,
}

/// The mathematical value of a `CATapDescription`.
pub struct TapDescriptionModel {
    pub mono: bool,
    pub excluded_processes: Seq<i32>,
    pub mute_behavior: CATapMuteBehavior,
    pub uuid: Seq<char>,
}

impl View for CATapDescription {
    type V = TapDescriptionModel;

    open spec fn view(&self) -> TapDescriptionModel {
        TapDescriptionModel {
            mono: self.mono,
            excluded_processes: self.excluded_processes@,
            mute_behavior: self.mute_behavior,
            uuid: self.uuid@,
        }
    }
}

impl CATapDescription {
    /// A mono tap of all processes but `processes`, under a fresh UUID.
    pub fn new_mono_global_tap_but_exclude(processes: Vec<i32>) -> (r: CATapDescription)
        ensures
            r.mono,
            r.excluded_processes@ == processes@,
            r.mute_behavior == CATapMuteBehavior::Unmuted,
            is_hyphenated_uuid(r.uuid@),
    {
        CATapDescription {
            mono: true,
            excluded_processes: processes,
            mute_behavior: CATapMuteBehavior::Unmuted,
            uuid: fresh_uuid(),
        }
    }

    /// A stereo tap of all processes but `processes`, under a fresh UUID.
    pub fn new_stereo_global_tap_but_exclude(processes: Vec<i32>) -> (r: CATapDescription)
        ensures
            !r.mono,
            r.excluded_processes@ == processes@,
            r.mute_behavior == CATapMuteBehavior::Unmuted,
            is_hyphenated_uuid(r.uuid@),
    {
        CATapDescription {
            mono: false,
            excluded_processes: processes,
            mute_behavior: CATapMuteBehavior::Unmuted,
            uuid: fresh_uuid(),
        }
    }

    /// The UUID under which aggregate descriptions refer to this tap.
    pub fn get_uuid(&self) -> (r: String)
        ensures
            r@ == self.uuid@,
    {
        self.uuid.clone()
    }

    /// An identical description, same UUID included.
    pub fn copy(&self) -> (r: CATapDescription)
        ensures
            r@ == self@,
    {
        let mut processes: Vec<i32> = Vec::new();
        let mut i: usize = 0;
        while i < self.excluded_processes.len()
            invariant
                0 <= i <= self.excluded_processes@.len(),
                processes@ == self.excluded_processes@.subrange(0, i as int),
            decreases self.excluded_processes@.len() - i,
        {
            processes.push(self.excluded_processes[i]);
            assert(processes@ =~= self.excluded_processes@.subrange(0, i + 1));
            i += 1;
        }
        assert(processes@ =~= self.excluded_processes@);
        CATapDescription {
            mono: self.mono,
            excluded_processes: processes,
            mute_behavior: self.mute_behavior,
            uuid: self.uuid.clone(),
        }
    }
}

} // verus!
