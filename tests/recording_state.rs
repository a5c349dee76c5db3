use audio_tap::aggregate::CreateAggregateDeviceResult;
use audio_tap::error::AudioError;
use audio_tap::state::{
    start_recording, stop_recording, RecordingSession, RecordingState, StartStep, TeardownStep, SETTLE_MILLIS,
};

#[test]
fn start_from_stopped_begins_recording() {
    let mut s = RecordingSession::new();
    assert_eq!(start_recording(&mut s), Ok(()));
    assert_eq!(s.state, RecordingState::Recording);
}

#[test]
fn start_while_recording_is_already_in_progress() {
    let mut s = RecordingSession::new();
    start_recording(&mut s).unwrap();
    let dev = CreateAggregateDeviceResult { tap_id: 1, aggregate_device_id: 2 };
    s.route_through(3, dev);
    assert_eq!(start_recording(&mut s), Err(AudioError::AlreadyInProgress));
    assert_eq!(s.state, RecordingState::Recording);
    assert_eq!(s.original_output, Some(3));
    assert_eq!(s.aggregate, Some(dev));
    s.pause().unwrap();
    assert_eq!(start_recording(&mut s), Err(AudioError::AlreadyInProgress));
    assert_eq!(s.state, RecordingState::Paused);
}

#[test]
fn stop_while_stopped_is_not_started() {
    let mut s = RecordingSession::new();
    assert_eq!(stop_recording(&mut s), Err(AudioError::NotStarted));
    assert_eq!(s.state, RecordingState::Stopped);
}

#[test]
fn stop_tears_down_in_order_exactly_once() {
    let mut s = RecordingSession::new();
    start_recording(&mut s).unwrap();
    s.route_through(42, CreateAggregateDeviceResult { tap_id: 7, aggregate_device_id: 99 });
    s.set_capture_open();
    let steps = stop_recording(&mut s).unwrap();
    assert_eq!(
        steps,
        vec![
            TeardownStep::StopCapture,
            TeardownStep::Settle,
            TeardownStep::RestoreDefaultOutput(42),
            TeardownStep::DestroyAggregate(99)
        ]
    );
    assert_eq!(s.state, RecordingState::Stopped);
    assert_eq!(stop_recording(&mut s), Err(AudioError::NotStarted));
    start_recording(&mut s).unwrap();
    assert_eq!(stop_recording(&mut s).unwrap(), vec![]);
}

#[test]
fn pause_and_resume() {
    let mut s = RecordingSession::new();
    assert_eq!(s.pause(), Err(AudioError::NotStarted));
    assert_eq!(s.resume(), Err(AudioError::NotStarted));
    start_recording(&mut s).unwrap();
    assert_eq!(s.resume(), Err(AudioError::NotStarted));
    assert_eq!(s.pause(), Ok(()));
    assert_eq!(s.state, RecordingState::Paused);
    assert_eq!(s.resume(), Ok(()));
    assert_eq!(s.state, RecordingState::Recording);
    s.pause().unwrap();
    s.set_capture_open();
    assert_eq!(stop_recording(&mut s).unwrap(), vec![TeardownStep::StopCapture]);
}

#[test]
fn failed_start_releases_what_was_set_up() {
    let mut s = RecordingSession::new();
    start_recording(&mut s).unwrap();
    s.route_through(5, CreateAggregateDeviceResult { tap_id: 6, aggregate_device_id: 8 });
    let steps = s.abort_start();
    assert_eq!(
        steps,
        vec![TeardownStep::Settle, TeardownStep::RestoreDefaultOutput(5), TeardownStep::DestroyAggregate(8)]
    );
    assert_eq!(s.state, RecordingState::Stopped);
    assert_eq!(s.original_output, None);
    assert_eq!(s.aggregate, None);
    assert_eq!(start_recording(&mut s), Ok(()));
}

#[test]
fn routing_saves_the_original_output_then_switches_settles_and_opens() {
    let mut s = RecordingSession::new();
    start_recording(&mut s).unwrap();
    let dev = CreateAggregateDeviceResult { tap_id: 3, aggregate_device_id: 64 };
    let steps = s.route_through(9, dev);
    assert_eq!(
        steps,
        vec![StartStep::SwitchDefaultOutput(64), StartStep::Settle, StartStep::OpenCapture(64)]
    );
    assert_eq!(s.original_output, Some(9));
    assert_eq!(s.aggregate, Some(dev));
    assert!(SETTLE_MILLIS >= 100);
    assert_eq!(
        s.abort_start(),
        vec![TeardownStep::Settle, TeardownStep::RestoreDefaultOutput(9), TeardownStep::DestroyAggregate(64)]
    );
}
