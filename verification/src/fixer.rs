//! The outcome of a fix command, and the schedule of the progress bar shown
//! while it runs.
use vstd::prelude::*;
use crate::detector::{command_output, shown_output};
use crate::text::push_str;

verus! {

/// What running a fix command gave.
#[derive(Debug, Clone, PartialEq, Eq)]
pub struct FixResult {
    pub success: bool,
    pub output: String,
}

impl FixResult {
    /// The result of a fix command that ran: it succeeded when it exited with success.
    pub fn from_run(exited_successfully: bool, stdout: &[u8], stderr: &[u8]) -> (r: FixResult)
        ensures
            r.success == exited_successfully,
            r.output@ == shown_output(stdout@, stderr@),
    {
        FixResult { success: exited_successfully, output: command_output(stdout, stderr) }
    }

    /// The result when the fix command could not be started.
    pub fn not_run(reason: &str) -> (r: FixResult)
        ensures
            !r.success,
            r.output@ == "Failed to run fix: "@ + reason@,
    {
        let mut output = crate::text::to_owned_string("Failed to run fix: ");
        push_str(&mut output, reason);
        FixResult { success: false, output }
    }
}

/// The simulated progress stops here until the command has finished.
pub const PROGRESS_CEILING: i32 = 95;

/// The progress reported once the command has finished.
pub const PROGRESS_DONE: i32 = 100;

/// How long to wait before the next progress step: quick at first, slower
/// towards the end.
pub open spec fn progress_delay(progress: int) -> u64 {
    if 0 <= progress <= 30 {
        50
    } else if 31 <= progress <= 60 {
        100
    } else if 61 <= progress <= 80 {
        150
    } else {
        200
    }
}

/// The progress after one step from `progress`, never past the ceiling.
pub open spec fn progress_after(progress: int) -> int {
    let inc = if 0 <= progress <= 30 {
        3 + progress % 3
    } else if 31 <= progress <= 60 {
        2 + progress % 2
    } else {
        1
    };
    if progress + inc < 95 {
        progress + inc
    } else {
        95
    }
}

/// The wait, in milliseconds, before the step from `progress`.
pub fn progress_delay_ms(progress: i32) -> (ms: u64)
    ensures
        ms == progress_delay(progress as int),
{
    if 0 <= progress && progress <= 30 {
        50
    } else if 31 <= progress && progress <= 60 {
        100
    } else if 61 <= progress && progress <= 80 {
        150
    } else {
        200
    }
}

/// The progress after one step from `progress` (taken only while below the ceiling).
pub fn next_progress(progress: i32) -> (next: i32)
    requires
        progress < PROGRESS_CEILING,
    ensures
        next == progress_after(progress as int),
{
    let inc = if 0 <= progress && progress <= 30 {
        3 + progress % 3
    } else if 31 <= progress && progress <= 60 {
        2 + progress % 2
    } else {
        1
    };
    if progress + inc < 95 {
        progress + inc
    } else {
        95
    }
}

/// Each step moves the progress forward and never past the ceiling, so the
/// simulated progress reaches the ceiling and stops.
pub proof fn lemma_progress_advances(progress: int)
    requires
        progress < 95,
    ensures
        progress < progress_after(progress) <= 95,
{
}

/// Starting from nothing, the progress stays between 0 and the ceiling.
pub proof fn lemma_progress_stays_in_range(progress: int)
    requires
        0 <= progress < 95,
    ensures
        0 < progress_after(progress) <= 95,
{
}

} // verus!
