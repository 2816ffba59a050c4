//! The error taxonomy of the core: what is fatal to process setup,
//! what is fatal to one bind/unbind attempt, and what is fatal to one
//! capture attempt. A short read while discarding warm-up audio and a
//! cancelled selection are not errors.

use vstd::prelude::*;

verus! {

/// Failure to create or remove a virtual routing object: the backend
/// command exited with a non-zero status, or its listing output was
/// not decodable text. Fatal to process startup.
#[derive(Clone, Copy, PartialEq, Eq, Structural, Debug)]
pub enum SetupError {
    CommandFailed,
    UndecodableOutput,
}

/// Failure of a connect, disconnect or move-stream command. Fatal to
/// the current bind or unbind attempt only.
#[derive(Clone, Copy, PartialEq, Eq, Structural, Debug)]
pub enum RoutingError {
    CommandFailed,
}

/// Failure of one capture attempt: the capture process could not be
/// spawned, its liveness could not be checked, or it exited within the
/// deadline window with the status carried here.
#[derive(Clone, Copy, PartialEq, Eq, Structural, Debug)]
pub enum CaptureError {
    SpawnFailed,
    StatusCheckFailed,
    EarlyExit(i32),
}

/// Reads a command's reported exit status: success is exactly a zero
/// exit code, as the backend's CLI promises.
pub fn setup_command_result(code: Option<i32>) -> (r: Result<(), SetupError>)
    ensures
        r is Ok <==> code == Some(0i32),
        r is Err ==> r == Err::<(), SetupError>(SetupError::CommandFailed),
{
    match code {
        Some(c) => {
            if c == 0 {
                Ok(())
            } else {
                Err(SetupError::CommandFailed)
            }
        },
        None => Err(SetupError::CommandFailed),
    }
}

/// Reads a routing command's exit status: success is exactly zero.
pub fn routing_command_result(code: Option<i32>) -> (r: Result<(), RoutingError>)
    ensures
        r is Ok <==> code == Some(0i32),
        r is Err ==> r == Err::<(), RoutingError>(RoutingError::CommandFailed),
{
    match code {
        Some(c) => {
            if c == 0 {
                Ok(())
            } else {
                Err(RoutingError::CommandFailed)
            }
        },
        None => Err(RoutingError::CommandFailed),
    }
}

} // verus!
