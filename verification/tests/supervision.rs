//! Tests of the virtual device lifecycle and the capture supervisor:
//! idempotent setup, the deadline race, the warm-up discard and the
//! readiness poller.

use audst::errors::{
    routing_command_result, setup_command_result, CaptureError, RoutingError, SetupError,
};
use audst::lifecycle::{
    capture_sink_device, capture_sink_name, ensure_needed, graph_source_device,
    loopback_device, removal_targets, setup_devices, DeviceKind,
};
use audst::supervisor::{
    attempt_session, attempt_start, capture_args, capture_format, discard_len, poll_step,
    resolve_race, source_device_name, AttemptState, ExitCheck, PollStep, RaceOutcome,
};
use audst::Flavor;

/// A module listing line as the backend would show it once the capture
/// sink exists.
fn sink_line() -> Vec<u8> {
    b"7\tmodule-null-sink\tsink_name=audst sink_properties=device.description=\"Audst\\ REC\""
        .to_vec()
}

fn loopback_line() -> Vec<u8> {
    b"8\tmodule-loopback\tsource=audst.monitor sink=@DEFAULT_SINK@".to_vec()
}

#[test]
fn ensure_is_idempotent() {
    let dev = capture_sink_device();
    let mut creations = 0;
    // first call: nothing listed, the creation command is issued
    if ensure_needed(b"", &dev) {
        creations += 1;
    }
    // second call: the backend now lists the object
    let listing = sink_line();
    if ensure_needed(&listing, &dev) {
        creations += 1;
    }
    assert_eq!(creations, 1);
}

#[test]
fn setup_twice_creates_each_device_once() {
    let devices = setup_devices(Flavor::Mixing);
    assert_eq!(devices.len(), 2);
    assert!(matches!(devices[0].kind, DeviceKind::Sink));
    assert!(matches!(devices[1].kind, DeviceKind::Loopback));

    // first run: no virtual devices present
    let mut first_run = 0;
    for dev in &devices {
        if ensure_needed(b"", dev) {
            first_run += 1;
        }
    }
    assert_eq!(first_run, 2);

    // second run against the listing the backend then shows
    let mut listing = sink_line();
    listing.push(b'\n');
    listing.extend_from_slice(&loopback_line());
    let mut second_run = 0;
    for dev in &devices {
        if ensure_needed(&listing, dev) {
            second_run += 1;
        }
    }
    assert_eq!(second_run, 0);
}

#[test]
fn graph_setup_has_one_device() {
    let devices = setup_devices(Flavor::Graph);
    assert_eq!(devices.len(), 1);
    assert!(matches!(devices[0].kind, DeviceKind::Source));
    assert_eq!(devices[0].args[0], b"module-jack-source".to_vec());
    let g = graph_source_device();
    assert_eq!(g.args[1], b"source_name=audst_jack".to_vec());
}

#[test]
fn removal_targets_every_matching_object() {
    let mut listing = loopback_line();
    listing.push(b'\n');
    listing.extend_from_slice(b"9\tmodule-loopback\tsource=audst.monitor sink=@DEFAULT_SINK@");
    let ids = removal_targets(&listing, &loopback_device());
    assert_eq!(ids.len(), 2);
    assert_eq!(ids[0], b"module-loopback".to_vec());
    assert_eq!(ids[1], b"module-loopback".to_vec());
}

#[test]
fn capture_sink_is_named_audst() {
    assert_eq!(capture_sink_name(), b"audst".to_vec());
}

#[test]
fn command_results_follow_the_exit_status() {
    assert_eq!(setup_command_result(Some(0)), Ok(()));
    assert_eq!(setup_command_result(Some(1)), Err(SetupError::CommandFailed));
    assert_eq!(setup_command_result(None), Err(SetupError::CommandFailed));
    assert_eq!(routing_command_result(Some(0)), Ok(()));
    assert_eq!(routing_command_result(Some(2)), Err(RoutingError::CommandFailed));
}

#[test]
fn source_device_names_by_flavor() {
    assert_eq!(source_device_name(Flavor::Mixing), b"audst.monitor".to_vec());
    assert_eq!(source_device_name(Flavor::Graph), b"audst_jack".to_vec());
}

#[test]
fn capture_args_fix_the_format() {
    let f = capture_format(2);
    let args = capture_args(b"audst.monitor", f);
    let want: Vec<&[u8]> = vec![
        b"--format=float32le",
        b"--rate=48000",
        b"--channels=2",
        b"-d",
        b"audst.monitor",
        b"-r",
    ];
    assert_eq!(args.len(), want.len());
    for (a, w) in args.iter().zip(want.iter()) {
        assert_eq!(a.as_slice(), *w);
    }
    let mono = capture_args(b"audst_jack", capture_format(1));
    assert_eq!(mono[2], b"--channels=1".to_vec());
}

#[test]
fn discard_covers_the_deadline_window() {
    // 48000 samples/s x 0.050 s x 2 channels x 4 bytes
    assert_eq!(discard_len(capture_format(2)), 19200);
    assert_eq!(discard_len(capture_format(1)), 9600);
}

#[test]
fn deadline_elapsing_means_healthy_and_one_discard() {
    let mut a = attempt_start(2);
    assert!(matches!(a.state, AttemptState::Racing));
    let discard = resolve_race(&mut a, RaceOutcome::DeadlineElapsed);
    assert_eq!(discard, Some(19200));
    assert!(matches!(a.state, AttemptState::Streaming));
    assert_eq!(a.discards_issued, 1);
    let session = attempt_session(&a).unwrap();
    assert!(session.live);
    assert_eq!(session.format.channels, 2);
}

#[test]
fn early_exit_fails_with_the_observed_status() {
    let mut a = attempt_start(2);
    let discard = resolve_race(&mut a, RaceOutcome::ProcessExited(3));
    assert_eq!(discard, None);
    assert!(matches!(a.state, AttemptState::Failed(CaptureError::EarlyExit(3))));
    assert_eq!(a.discards_issued, 0);
    assert!(attempt_session(&a).is_none());
}

#[test]
fn failed_status_check_fails_the_attempt() {
    let mut a = attempt_start(1);
    let discard = resolve_race(&mut a, RaceOutcome::StatusCheckFailed);
    assert_eq!(discard, None);
    assert!(matches!(a.state, AttemptState::Failed(CaptureError::StatusCheckFailed)));
}

#[test]
fn poller_yields_until_the_process_exits() {
    assert_eq!(poll_step(ExitCheck::StillRunning), PollStep::Pending);
    assert_eq!(poll_step(ExitCheck::Exited(0)), PollStep::ReadyExited(0));
    assert_eq!(poll_step(ExitCheck::Exited(9)), PollStep::ReadyExited(9));
    assert_eq!(poll_step(ExitCheck::CheckFailed), PollStep::ReadyFailed);
}
