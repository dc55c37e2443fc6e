//! The programmed result standing in for one real process-spawn result.

use vstd::prelude::*;

verus! {

/// One future process-spawn result. A spawn either completes and yields an
/// exit status together with captured output streams, or it fails outright
/// with an operating-system error code. The sequencer never interprets these
/// contents; it only hands them out in insertion order.
#[derive(Debug, PartialEq, Eq)]
pub enum SpawnOutcome {
    /// The spawn succeeded: the process exits with `exit_status` and the
    /// captured standard output and standard error hold these bytes.
    Completed { exit_status: i32, stdout: Vec<u8>, stderr: Vec<u8> },
    /// The spawn itself failed with this operating-system error code.
    Failed { error_code: i32 },
}

} // verus!
