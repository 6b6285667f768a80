//! Log files: when the current file rotates and how older files shift.
use vstd::prelude::*;

use crate::text::{decimal_chars, decimal_digits, push_chars};

verus! {

broadcast use vstd::string::group_string_axioms;

/// The name of the `index`-th older log file: the log's path with `.index`
/// appended.
pub open spec fn rotated_name(path: Seq<char>, index: nat) -> Seq<char> {
    path + seq!['.'] + decimal_digits(index)
}

/// The path of the `index`-th older log file (see `rotated_name`).
pub fn rotated_path(path: &str, index: usize) -> (rotated: String)
    ensures
        rotated@ == rotated_name(path@, index as nat),
{
    let mut rotated = path.to_owned();
    rotated.append(".");
    push_chars(&mut rotated, &decimal_chars(index as u64));
    proof {
        reveal_strlit(".");
        assert(rotated@ =~= rotated_name(path@, index as nat));
    }
    rotated
}

/// Whether a write of `incoming` bytes rotates the log first: the current
/// file is not empty and the write would take it past `max_bytes`.
pub open spec fn rotates_before(bytes_written: u64, incoming: u64, max_bytes: u64) -> bool {
    bytes_written > 0 && (if bytes_written + incoming > u64::MAX {
        u64::MAX as int
    } else {
        bytes_written + incoming
    }) > max_bytes
}

/// Whether a write of `incoming` bytes rotates the log first (see
/// `rotates_before`).
pub fn should_rotate(bytes_written: u64, incoming: u64, max_bytes: u64) -> (rotate: bool)
    ensures
        rotate == rotates_before(bytes_written, incoming, max_bytes),
{
    bytes_written > 0 && bytes_written.saturating_add(incoming) > max_bytes
}

/// One rename of a rotation.
pub struct RotationStep {
    /// The file that moves, if it exists.
    pub source: String,
    /// Where it moves.
    pub destination: String,
    /// Whether the destination is removed first (the oldest kept file).
    pub remove_destination: bool,
}

/// A rotation keeping `retained` older files, as renames in order: from the
/// oldest slot down, `path.(i-1)` (or the log itself for `i = 1`) moves to
/// `path.i`, and the file in the oldest slot is removed first.
pub open spec fn rotation_step(path: Seq<char>, retained: nat, k: int) -> (Seq<char>, Seq<char>, bool) {
    let index = (retained - k) as nat;
    (
        if index == 1 {
            path
        } else {
            rotated_name(path, (index - 1) as nat)
        },
        rotated_name(path, index),
        index == retained,
    )
}

/// The renames of a rotation (see `rotation_step`).
pub fn rotation_plan(path: &str, retained: usize) -> (steps: Vec<RotationStep>)
    ensures
        steps@.len() == retained,
        forall|k: int|
            0 <= k < retained ==> {
                let step = #[trigger] steps@[k];
                (step.source@, step.destination@, step.remove_destination) == rotation_step(
                    path@,
                    retained as nat,
                    k,
                )
            },
{
    let mut steps: Vec<RotationStep> = Vec::new();
    let mut index = retained;
    while index >= 1
        invariant
            index <= retained,
            steps@.len() == retained - index,
            forall|k: int|
                0 <= k < steps@.len() ==> {
                    let step = #[trigger] steps@[k];
                    (step.source@, step.destination@, step.remove_destination) == rotation_step(
                        path@,
                        retained as nat,
                        k,
                    )
                },
        decreases index,
    {
        let source = if index == 1 {
            path.to_owned()
        } else {
            rotated_path(path, index - 1)
        };
        let destination = rotated_path(path, index);
        steps.push(RotationStep { source, destination, remove_destination: index == retained });
        index = index - 1;
    }
    steps
}


/// A rotation shifts every kept file up one slot: each rename moves the
/// file that the next rename then vacates, so no file is overwritten but
/// the oldest, whose slot is cleared first.
pub proof fn lemma_rotation_shifts_files_up(path: Seq<char>, retained: nat, k: int)
    requires
        0 <= k < retained - 1,
    ensures
        rotation_step(path, retained, k).0 == rotation_step(path, retained, k + 1).1,
        rotation_step(path, retained, 0).2,
        !rotation_step(path, retained, k + 1).2,
{
}

} // verus!
