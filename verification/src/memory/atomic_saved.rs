//! Decisions of the crash-safe save scheme: which saves count as complete,
//! and when a backup replaces the main save file.

use vstd::prelude::*;

verus! {

/// A main save file shorter than this, with a backup beside it, is taken to
/// be truncated.
pub const MIN_COMPLETE_SAVE_BYTES: u64 = 100;

/// What recovery does with a save file and its backup.
#[derive(Clone, Copy, Debug, PartialEq, Eq, Structural)]
pub enum RecoveryAction {
    /// The main file is missing: move the backup into its place.
    RestoreBackup,
    /// The main file looks truncated: delete it and move the backup into
    /// its place.
    ReplaceTruncated,
    /// Leave both files as they are.
    Keep,
}

/// Whether a save whose main file has length `main_len` (`None` when it does
/// not exist) is complete: it exists and is not empty.
pub fn is_save_valid(main_len: Option<u64>) -> (valid: bool)
    ensures
        valid == (main_len matches Some(len) && len > 0),
{
    match main_len {
        Some(len) => len > 0,
        None => false,
    }
}

/// The recovery step for a save whose main file has length `main_len`
/// (`None` when it does not exist), with or without a backup.
pub fn recovery_action(main_len: Option<u64>, backup_exists: bool) -> (action: RecoveryAction)
    ensures
        action == (if !backup_exists {
            RecoveryAction::Keep
        } else {
            match main_len {
                None => RecoveryAction::RestoreBackup,
                Some(len) => if len < MIN_COMPLETE_SAVE_BYTES {
                    RecoveryAction::ReplaceTruncated
                } else {
                    RecoveryAction::Keep
                },
            }
        }),
{
    if !backup_exists {
        return RecoveryAction::Keep;
    }
    match main_len {
        None => RecoveryAction::RestoreBackup,
        Some(len) => {
            if len < MIN_COMPLETE_SAVE_BYTES {
                RecoveryAction::ReplaceTruncated
            } else {
                RecoveryAction::Keep
            }
        },
    }
}

} // verus!
