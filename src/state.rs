//! The recording state machine and the resources one recording holds.

use vstd::prelude::*;

use crate::aggregate::CreateAggregateDeviceResult;
use crate::error::AudioError;

verus! {

#[derive(Clone, Copy, Debug, PartialEq, Eq, Structural)]
pub enum RecordingState {
    Stopped,
    Recording,
    Paused,
}

/// How long the OS audio graph takes to re-route after the default output
/// changes, in milliseconds.
pub const SETTLE_MILLIS: u64 = 300;

/// One action of the start sequence once the aggregate device exists.
#[derive(Clone, Copy, Debug, PartialEq, Eq, Structural)]
pub enum StartStep {
    /// Make this device the default output, so that system audio flows through it.
    SwitchDefaultOutput(u32),
    /// Wait `SETTLE_MILLIS` for the re-routing to take effect.
    Settle,
    /// Open the capture stream on this device.
    OpenCapture(u32),
}

/// Routing system audio through the aggregate: switch the default output to
/// it, let the switch settle, and only then open the stream on it.
pub open spec fn routing_steps(aggregate_device_id: u32) -> Seq<StartStep> {
    seq![
        StartStep::SwitchDefaultOutput(aggregate_device_id),
        StartStep::Settle,
        StartStep::OpenCapture(aggregate_device_id),
    ]
}

/// One cleanup action at the end of a recording.
#[derive(Clone, Copy, Debug, PartialEq, Eq, Structural)]
pub enum TeardownStep {
    /// Stop the stream, then flush and finalize the encoder.
    StopCapture,
    /// Wait `SETTLE_MILLIS` before the default output changes again.
    Settle,
    /// Make this device the default output again, then wait for it to settle.
    RestoreDefaultOutput(u32),
    /// Destroy this aggregate device; its tap goes with it.
    DestroyAggregate(u32),
}

/// The single recording session: its state and what the current recording
/// has set up so far.
pub struct RecordingSession {
    pub state: RecordingState,
    /// The default output device before the aggregate replaced it.
    pub original_output: Option<u32>,
    /// The aggregate device created for this recording.
    pub aggregate: Option<CreateAggregateDeviceResult>,
    /// Whether a capture stream is open.
    pub capture_open: bool,
}

/// The cleanup for what a session holds, in order: the stream is stopped
/// before the default output is restored (after a settle delay), and both
/// before the aggregate is destroyed.
pub open spec fn teardown_steps(s: RecordingSession) -> Seq<TeardownStep> {
    (if s.capture_open {
        seq![TeardownStep::StopCapture]
    } else {
        Seq::empty()
    }) + match s.original_output {
        Some(id) => seq![TeardownStep::Settle, TeardownStep::RestoreDefaultOutput(id)],
        None => Seq::empty(),
    } + match s.aggregate {
        Some(dev) => seq![TeardownStep::DestroyAggregate(dev.aggregate_device_id)],
        None => Seq::empty(),
    }
}

/// A session that holds nothing to clean up.
pub open spec fn released(s: RecordingSession) -> bool {
    &&& s.original_output is None
    &&& s.aggregate is None
    &&& !s.capture_open
}

impl RecordingSession {
    /// A stopped session holding nothing.
    pub fn new() -> (r: RecordingSession)
        ensures
            r.state == RecordingState::Stopped,
            released(r),
    {
        RecordingSession {
            state: RecordingState::Stopped,
            original_output: None,
            aggregate: None,
            capture_open: false,
        }
    }

    /// Notes the default output that was in place and the aggregate built for
    /// the recording, and hands out the steps that route system audio through
    /// the aggregate. The original output is on record before any switch, so
    /// that every later cleanup restores it.
    pub fn route_through(&mut self, original_output: u32, device: CreateAggregateDeviceResult) -> (r:
        Vec<StartStep>)
        ensures
            final(self).original_output == Some(original_output),
            final(self).aggregate == Some(device),
            final(self).state == old(self).state,
            final(self).capture_open == old(self).capture_open,
            r@ == routing_steps(device.aggregate_device_id),
    {
        self.original_output = Some(original_output);
        self.aggregate = Some(device);
        let id = device.aggregate_device_id;
        let mut r: Vec<StartStep> = Vec::new();
        r.push(StartStep::SwitchDefaultOutput(id));
        r.push(StartStep::Settle);
        r.push(StartStep::OpenCapture(id));
        assert(r@ =~= routing_steps(id));
        r
    }

    /// Notes that the capture stream is open.
    pub fn set_capture_open(&mut self)
        ensures
            final(self).capture_open,
            final(self).state == old(self).state,
            final(self).original_output == old(self).original_output,
            final(self).aggregate == old(self).aggregate,
    {
        self.capture_open = true;
    }

    /// Hands out the cleanup for everything the session holds and forgets it,
    /// so that nothing is ever cleaned up twice.
    pub fn release(&mut self) -> (r: Vec<TeardownStep>)
        ensures
            r@ == teardown_steps(*old(self)),
            released(*final(self)),
            final(self).state == old(self).state,
    {
        let mut r: Vec<TeardownStep> = Vec::new();
        if self.capture_open {
            r.push(TeardownStep::StopCapture);
        }
        match self.original_output {
            Some(id) => {
                r.push(TeardownStep::Settle);
                r.push(TeardownStep::RestoreDefaultOutput(id));
            },
            None => {},
        }
        match self.aggregate {
            Some(dev) => r.push(TeardownStep::DestroyAggregate(dev.aggregate_device_id)),
            None => {},
        }
        assert(r@ =~= teardown_steps(*old(self)));
        self.capture_open = false;
        self.original_output = None;
        self.aggregate = None;
        r
    }

    /// A failed start: the session returns to `Stopped` and hands out the
    /// cleanup for whatever the attempt had set up.
    pub fn abort_start(&mut self) -> (r: Vec<TeardownStep>)
        ensures
            r@ == teardown_steps(*old(self)),
            released(*final(self)),
            final(self).state == RecordingState::Stopped,
    {
        let r = self.release();
        self.state = RecordingState::Stopped;
        r
    }

    /// Recording → Paused.
    pub fn pause(&mut self) -> (r: Result<(), AudioError>)
        ensures
            old(self).state == RecordingState::Recording ==> r is Ok && final(self).state
                == RecordingState::Paused,
            old(self).state != RecordingState::Recording ==> r == Err::<(), AudioError>(
                AudioError::NotStarted,
            ) && final(self).state == old(self).state,
            final(self).original_output == old(self).original_output,
            final(self).aggregate == old(self).aggregate,
            final(self).capture_open == old(self).capture_open,
    {
        if self.state == RecordingState::Recording {
            self.state = RecordingState::Paused;
            Ok(())
        } else {
            Err(AudioError::NotStarted)
        }
    }

    /// Paused → Recording.
    pub fn resume(&mut self) -> (r: Result<(), AudioError>)
        ensures
            old(self).state == RecordingState::Paused ==> r is Ok && final(self).state
                == RecordingState::Recording,
            old(self).state != RecordingState::Paused ==> r == Err::<(), AudioError>(
                AudioError::NotStarted,
            ) && final(self).state == old(self).state,
            final(self).original_output == old(self).original_output,
            final(self).aggregate == old(self).aggregate,
            final(self).capture_open == old(self).capture_open,
    {
        if self.state == RecordingState::Paused {
            self.state = RecordingState::Recording;
            Ok(())
        } else {
            Err(AudioError::NotStarted)
        }
    }
}

/// Stopped → Recording. Any other state fails with `AlreadyInProgress` and
/// leaves the session exactly as it was, so that nothing is set up.
pub fn start_recording(session: &mut RecordingSession) -> (r: Result<(), AudioError>)
    ensures
        old(session).state == RecordingState::Stopped ==> r is Ok && final(session).state
            == RecordingState::Recording && final(session).original_output
            == old(session).original_output && final(session).aggregate
            == old(session).aggregate && final(session).capture_open
            == old(session).capture_open,
        old(session).state != RecordingState::Stopped ==> r == Err::<(), AudioError>(
            AudioError::AlreadyInProgress,
        ) && *final(session) == *old(session),
{
    if session.state == RecordingState::Stopped {
        session.state = RecordingState::Recording;
        Ok(())
    } else {
        Err(AudioError::AlreadyInProgress)
    }
}

/// Recording or Paused → Stopped, handing out the cleanup for everything the
/// recording set up. When stopped already it fails with `NotStarted` and
/// changes nothing.
pub fn stop_recording(session: &mut RecordingSession) -> (r: Result<Vec<TeardownStep>, AudioError>)
    ensures
        old(session).state != RecordingState::Stopped ==> r is Ok && r->Ok_0@ == teardown_steps(
            *old(session),
        ) && final(session).state == RecordingState::Stopped && released(*final(session)),
        old(session).state == RecordingState::Stopped ==> r is Err && r->Err_0
            == AudioError::NotStarted && *final(session) == *old(session),
{
    if session.state == RecordingState::Stopped {
        Err(AudioError::NotStarted)
    } else {
        session.state = RecordingState::Stopped;
        Ok(session.release())
    }
}

} // verus!
