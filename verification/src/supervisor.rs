//! Capture process supervision: the fixed capture format, the
//! arguments handed to the external capture tool, the bounded-deadline
//! liveness race, and the warm-up discard that removes the settling
//! artifact from the head of the stream. Also the readiness poller's
//! one-step decision, by which the race runs inside a cooperative
//! scheduler without a dedicated thread.

use vstd::prelude::*;
use vstd::string::StringSliceAdditionalSpecFns;
use crate::errors::CaptureError;
use crate::text::copy_bytes;
use crate::Flavor;

verus! {

/// Samples per second of the fixed capture format.
pub const SAMPLE_RATE: u64 = 48000;

/// The liveness deadline, in milliseconds.
pub const DEADLINE_MS: u64 = 50;

/// Bytes per sample of the fixed 32-bit float encoding.
pub const BYTES_PER_SAMPLE: u64 = 4;

/// Sample encoding of the capture stream. The format is fixed: 32-bit
/// float, little endian.
#[derive(Clone, Copy, PartialEq, Eq, Structural)]
pub enum SampleEncoding {
    Float32Le,
}

/// Container of the capture stream: raw samples, no framing.
#[derive(Clone, Copy, PartialEq, Eq, Structural)]
pub enum Container {
    Raw,
}

/// The fixed capture format chosen at startup.
#[derive(Clone, Copy, PartialEq, Eq, Structural)]
pub struct CaptureFormat {
    pub encoding: SampleEncoding,
    pub rate: u64,
    pub channels: u64,
    pub container: Container,
}

/// A well-formed format: the fixed encoding and rate, and one or two
/// channels.
pub open spec fn format_wf(f: CaptureFormat) -> bool {
    &&& f.encoding == SampleEncoding::Float32Le
    &&& f.rate == SAMPLE_RATE
    &&& (f.channels == 1 || f.channels == 2)
    &&& f.container == Container::Raw
}

/// The capture format for the given channel count.
pub fn capture_format(channels: u64) -> (f: CaptureFormat)
    requires
        channels == 1 || channels == 2,
    ensures
        format_wf(f),
        f.channels == channels,
{
    CaptureFormat {
        encoding: SampleEncoding::Float32Le,
        rate: SAMPLE_RATE,
        channels,
        container: Container::Raw,
    }
}

/// Name of the device the capture tool records from, by flavor: the
/// capture sink's monitor under the mixing server, the graph capture
/// client's source under the port graph.
pub fn source_device_name(flavor: Flavor) -> (r: Vec<u8>)
    ensures
        flavor == Flavor::Mixing ==> r@ == "audst.monitor".spec_bytes(),
        flavor == Flavor::Graph ==> r@ == "audst_jack".spec_bytes(),
{
    match flavor {
        Flavor::Mixing => copy_bytes("audst.monitor".as_bytes()),
        Flavor::Graph => copy_bytes("audst_jack".as_bytes()),
    }
}

/// The argument list of the external capture tool: raw float little
/// endian, the fixed rate, the format's channel count, the named
/// source device, continuous record mode.
pub fn capture_args(device: &[u8], f: CaptureFormat) -> (r: Vec<Vec<u8>>)
    requires
        format_wf(f),
    ensures
        r.deep_view() == seq![
            "--format=float32le".spec_bytes(),
            "--rate=48000".spec_bytes(),
            (if f.channels == 1 {
                "--channels=1".spec_bytes()
            } else {
                "--channels=2".spec_bytes()
            }),
            "-d".spec_bytes(),
            device@,
            "-r".spec_bytes(),
        ],
{
    let mut r: Vec<Vec<u8>> = Vec::new();
    r.push(copy_bytes("--format=float32le".as_bytes()));
    r.push(copy_bytes("--rate=48000".as_bytes()));
    if f.channels == 1 {
        r.push(copy_bytes("--channels=1".as_bytes()));
    } else {
        r.push(copy_bytes("--channels=2".as_bytes()));
    }
    r.push(copy_bytes("-d".as_bytes()));
    r.push(copy_bytes(device));
    r.push(copy_bytes("-r".as_bytes()));
    assert(r.deep_view() =~~= seq![
        "--format=float32le".spec_bytes(),
        "--rate=48000".spec_bytes(),
        (if f.channels == 1 {
            "--channels=1".spec_bytes()
        } else {
            "--channels=2".spec_bytes()
        }),
        "-d".spec_bytes(),
        device@,
        "-r".spec_bytes(),
    ]);
    r
}

/// Bytes of warm-up audio to discard once the deadline has elapsed:
/// the audio produced during the deadline window, `rate × deadline ×
/// channels × bytes per sample`.
pub open spec fn discard_len_spec(channels: u64) -> int {
    (SAMPLE_RATE as int / 1000) * (DEADLINE_MS as int) * (channels as int) * (
    BYTES_PER_SAMPLE as int)
}

/// Computes the warm-up discard length for a format.
pub fn discard_len(f: CaptureFormat) -> (r: u64)
    requires
        format_wf(f),
    ensures
        r == discard_len_spec(f.channels),
{
    48 * DEADLINE_MS * f.channels * BYTES_PER_SAMPLE
}

/// What one non-blocking exit check of the capture process reported:
/// still running, exited with a code (or none, if ended by a signal),
/// or the check itself failed.
#[derive(Clone, Copy, PartialEq, Eq, Structural, Debug)]
pub enum ExitCheck {
    StillRunning,
    Exited(i32),
    CheckFailed,
}

/// One step of the readiness poller: an exit check becomes either a
/// completed poll or a yield back to the scheduler, never a blocking
/// wait.
#[derive(Clone, Copy, PartialEq, Eq, Structural, Debug)]
pub enum PollStep {
    Pending,
    ReadyExited(i32),
    ReadyFailed,
}

/// Maps one non-blocking exit check to the poller's step: not yet
/// exited yields, everything else completes at once.
pub fn poll_step(c: ExitCheck) -> (r: PollStep)
    ensures
        c == ExitCheck::StillRunning ==> r == PollStep::Pending,
        forall|s: i32| c == ExitCheck::Exited(s) ==> r == PollStep::ReadyExited(s),
        c == ExitCheck::CheckFailed ==> r == PollStep::ReadyFailed,
{
    match c {
        ExitCheck::StillRunning => PollStep::Pending,
        ExitCheck::Exited(s) => PollStep::ReadyExited(s),
        ExitCheck::CheckFailed => PollStep::ReadyFailed,
    }
}

/// How the bounded-deadline race against the capture process ended:
/// either the deadline elapsed with the process still alive, or the
/// poller completed first.
#[derive(Clone, Copy, PartialEq, Eq, Structural)]
pub enum RaceOutcome {
    DeadlineElapsed,
    ProcessExited(i32),
    StatusCheckFailed,
}

/// Where one capture attempt stands.
#[derive(Clone, Copy, PartialEq, Eq, Structural)]
pub enum AttemptState {
    Racing,
    Streaming,
    Failed(CaptureError),
}

/// One supervised capture attempt: the process has been spawned, the
/// liveness race is run, and on success the warm-up discard is issued
/// exactly once before the stream is handed off.
pub struct CaptureAttempt {
    pub format: CaptureFormat,
    pub state: AttemptState,
    pub discards_issued: u64,
}

/// A capture attempt over a well-formed format that has issued the
/// warm-up discard exactly as often as it has entered the streaming
/// state.
pub open spec fn attempt_wf(a: CaptureAttempt) -> bool {
    &&& format_wf(a.format)
    &&& a.discards_issued == (if a.state == AttemptState::Streaming {
        1int
    } else {
        0int
    })
}

/// Begins a capture attempt for a freshly spawned process.
pub fn attempt_start(channels: u64) -> (a: CaptureAttempt)
    requires
        channels == 1 || channels == 2,
    ensures
        attempt_wf(a),
        a.state == AttemptState::Racing,
        a.format.channels == channels,
{
    CaptureAttempt { format: capture_format(channels), state: AttemptState::Racing, discards_issued: 0 }
}

/// Resolves the liveness race. An early exit or a failed check is
/// fatal to the attempt and carries the observed status; an elapsed
/// deadline means the process is presumed healthy, and the number of
/// warm-up bytes to discard — best effort, a short read is tolerated —
/// is returned, exactly once.
pub fn resolve_race(a: &mut CaptureAttempt, outcome: RaceOutcome) -> (discard: Option<u64>)
    requires
        attempt_wf(*old(a)),
        old(a).state == AttemptState::Racing,
    ensures
        attempt_wf(*final(a)),
        final(a).format == old(a).format,
        outcome == RaceOutcome::DeadlineElapsed ==> final(a).state == AttemptState::Streaming
            && final(a).discards_issued == 1 && discard is Some && discard.unwrap()
            == discard_len_spec(old(a).format.channels),
        forall|s: i32|
            outcome == RaceOutcome::ProcessExited(s) ==> final(a).state == AttemptState::Failed(
                CaptureError::EarlyExit(s),
            ) && discard is None,
        outcome == RaceOutcome::StatusCheckFailed ==> final(a).state == AttemptState::Failed(
            CaptureError::StatusCheckFailed,
        ) && discard is None,
{
    match outcome {
        RaceOutcome::DeadlineElapsed => {
            let n = discard_len(a.format);
            a.state = AttemptState::Streaming;
            a.discards_issued = 1;
            Some(n)
        },
        RaceOutcome::ProcessExited(s) => {
            a.state = AttemptState::Failed(CaptureError::EarlyExit(s));
            None
        },
        RaceOutcome::StatusCheckFailed => {
            a.state = AttemptState::Failed(CaptureError::StatusCheckFailed);
            None
        },
    }
}

/// The stream descriptor handed to the downstream sink once an attempt
/// is streaming: a live raw stream in the fixed capture format.
#[derive(Clone, Copy, PartialEq, Eq, Structural)]
pub struct CaptureSession {
    pub live: bool,
    pub format: CaptureFormat,
}

/// Hands off the session descriptor of a streaming attempt.
pub fn attempt_session(a: &CaptureAttempt) -> (r: Option<CaptureSession>)
    requires
        attempt_wf(*a),
    ensures
        a.state == AttemptState::Streaming ==> r == Some(
            CaptureSession { live: true, format: a.format },
        ),
        a.state != AttemptState::Streaming ==> r is None,
{
    match a.state {
        AttemptState::Streaming => Some(CaptureSession { live: true, format: a.format }),
        AttemptState::Racing => None,
        AttemptState::Failed(_) => None,
    }
}

} // verus!
