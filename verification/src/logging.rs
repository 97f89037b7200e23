//! When the diagnostic log rotates, and how its files are renamed.
use vstd::prelude::*;

use crate::text::{decimal, decimal_string, join3};

verus! {

pub const LOG_FILE_NAME: &'static str = "klipo.log";

/// The log rotates before a line would take it past this many bytes.
pub const MAX_LOG_FILE_SIZE: u64 = 5242880;

/// How many rotated files are kept.
pub const MAX_ROTATED_LOG_FILES: usize = 5;

/// The name of the rotated log file with `index`.
pub open spec fn rotated_name(index: nat) -> Seq<char> {
    "klipo."@ + decimal(index) + ".log"@
}

pub fn rotated_file_name(index: usize) -> (name: String)
    ensures
        name@ == rotated_name(index as nat),
{
    let digits = decimal_string(index);
    join3("klipo.", digits.as_str(), ".log")
}

/// A non-empty log rotates when the line would take it past the limit.
pub open spec fn rotation_due(size: u64, line_size: u64) -> bool {
    size > 0 && size + line_size > MAX_LOG_FILE_SIZE
}

pub fn should_rotate(size: u64, line_size: u64) -> (rotate: bool)
    ensures
        rotate == rotation_due(size, line_size),
{
    size > 0 && size.saturating_add(line_size) > MAX_LOG_FILE_SIZE
}

/// The size recorded after a line was written, saturating at `u64::MAX`.
pub fn size_after_write(size: u64, line_size: u64) -> (new_size: u64)
    ensures
        new_size == (if size + line_size > u64::MAX {
            u64::MAX as int
        } else {
            size + line_size
        }),
{
    size.saturating_add(line_size)
}

/// One file operation of a rotation, on files named by `rotated_name` or on
/// the live log.
#[derive(Debug, Clone, Copy, PartialEq, Eq, Structural)]
pub enum RotationStep {
    /// Remove the rotated file with this index, if it exists.
    RemoveRotated(usize),
    /// Rename one rotated file to the next index, if it exists.
    ShiftRotated { from: usize, to: usize },
    /// Rename the live log to the first rotated file, if it exists.
    RetireCurrent,
}

/// The steps of a rotation, in order: drop the oldest file, shift every
/// other rotated file one index up, newest last, then retire the live log.
pub open spec fn rotation_steps() -> Seq<RotationStep> {
    seq![RotationStep::RemoveRotated(MAX_ROTATED_LOG_FILES)].add(
        Seq::new(
            (MAX_ROTATED_LOG_FILES - 1) as nat,
            |k: int|
                RotationStep::ShiftRotated {
                    from: (MAX_ROTATED_LOG_FILES - 1 - k) as usize,
                    to: (MAX_ROTATED_LOG_FILES - k) as usize,
                },
        ),
    ).push(RotationStep::RetireCurrent)
}

pub fn rotation_plan() -> (plan: Vec<RotationStep>)
    ensures
        plan@ == rotation_steps(),
{
    let mut plan: Vec<RotationStep> = Vec::new();
    plan.push(RotationStep::RemoveRotated(MAX_ROTATED_LOG_FILES));
    let mut index: usize = MAX_ROTATED_LOG_FILES - 1;
    while index >= 1
        invariant
            index < MAX_ROTATED_LOG_FILES,
            plan@.len() == MAX_ROTATED_LOG_FILES - index,
            plan@[0] == RotationStep::RemoveRotated(MAX_ROTATED_LOG_FILES),
            forall|k: int|
                0 <= k < MAX_ROTATED_LOG_FILES - 1 - index ==> #[trigger] plan@[k + 1]
                    == (RotationStep::ShiftRotated {
                    from: (MAX_ROTATED_LOG_FILES - 1 - k) as usize,
                    to: (MAX_ROTATED_LOG_FILES - k) as usize,
                }),
        decreases index,
    {
        plan.push(RotationStep::ShiftRotated { from: index, to: index + 1 });
        index = index - 1;
    }
    let ghost shifted = plan@;
    plan.push(RotationStep::RetireCurrent);
    let ghost steps = rotation_steps();
    assert(steps.len() == plan@.len());
    assert forall|i: int| 0 <= i < plan@.len() implies plan@[i] == steps[i] by {
        if 1 <= i < plan@.len() - 1 {
            assert(shifted[(i - 1) + 1] == plan@[i]);
        }
    }
    assert(plan@ =~= steps);
    plan
}

} // verus!
