//! Error codes, and the staged replacement of a file: write a temporary
//! file, back up the target, then rename the temporary file onto it.
use vstd::prelude::*;

verus! {

pub const ERR_FILE_NOT_FOUND: i32 = 1;
pub const ERR_CREATE_FILE: i32 = 2;
pub const ERR_WRITE_FILE: i32 = 3;
pub const ERR_READ_FILE: i32 = 4;
pub const ERR_DID_NOT_RUN_RENEW_LOGS: i32 = 101;
pub const ERR_WRITE_INI_FILE: i32 = 102;
pub const ERR_FIX_FILE_COPY: i32 = 201;
pub const ERR_FILE_BACKUP: i32 = 202;

/// The message shown for an error code; empty for a code that is not one.
pub open spec fn error_text(e: i32) -> Seq<char> {
    if e == ERR_FILE_NOT_FOUND {
        "File not found."@
    } else if e == ERR_CREATE_FILE {
        "File create failed."@
    } else if e == ERR_READ_FILE {
        "File read failed."@
    } else if e == ERR_WRITE_FILE {
        "File write failed."@
    } else if e == ERR_DID_NOT_RUN_RENEW_LOGS {
        "MicroSIP.ini is not renewed."@
    } else if e == ERR_WRITE_INI_FILE {
        "MicroSIP.ini write failed."@
    } else if e == ERR_FIX_FILE_COPY {
        "Failed to replace the created file."@
    } else if e == ERR_FILE_BACKUP {
        "File backup failed."@
    } else {
        Seq::empty()
    }
}

/// The message for error code `e`.
pub fn error_message(e: i32) -> (r: &'static str)
    ensures
        r@ == error_text(e),
{
    if e == ERR_FILE_NOT_FOUND {
        "File not found."
    } else if e == ERR_CREATE_FILE {
        "File create failed."
    } else if e == ERR_READ_FILE {
        "File read failed."
    } else if e == ERR_WRITE_FILE {
        "File write failed."
    } else if e == ERR_DID_NOT_RUN_RENEW_LOGS {
        "MicroSIP.ini is not renewed."
    } else if e == ERR_WRITE_INI_FILE {
        "MicroSIP.ini write failed."
    } else if e == ERR_FIX_FILE_COPY {
        "Failed to replace the created file."
    } else if e == ERR_FILE_BACKUP {
        "File backup failed."
    } else {
        proof {
            reveal_strlit("");
        }
        ""
    }
}

/// Where a replacement stands.
#[derive(Debug, PartialEq, Eq, Structural)]
pub enum TxState {
    Staging,
    BackingUp,
    Committing,
    Done,
    Failed(i32),
}

/// What the caller is to do next.
#[derive(Debug, PartialEq, Eq, Structural)]
pub enum TxAction {
    WriteTemp,
    BackupTarget,
    RenameTemp,
    DeleteTemp,
    Stop,
}

/// The state and action after `state`'s step succeeded (`ok`) or failed;
/// `write_error` is the code for a failed write of the temporary file.
pub open spec fn tx_next_spec(state: TxState, ok: bool, no_bup: bool, write_error: i32) -> (
    TxState,
    TxAction,
) {
    match state {
        TxState::Staging => if !ok {
            (TxState::Failed(write_error), TxAction::DeleteTemp)
        } else if no_bup {
            (TxState::Committing, TxAction::RenameTemp)
        } else {
            (TxState::BackingUp, TxAction::BackupTarget)
        },
        TxState::BackingUp => if ok {
            (TxState::Committing, TxAction::RenameTemp)
        } else {
            (TxState::Failed(ERR_FILE_BACKUP), TxAction::DeleteTemp)
        },
        TxState::Committing => if ok {
            (TxState::Done, TxAction::Stop)
        } else {
            (TxState::Failed(ERR_FIX_FILE_COPY), TxAction::DeleteTemp)
        },
        TxState::Done => (TxState::Done, TxAction::Stop),
        TxState::Failed(e) => (TxState::Failed(e), TxAction::Stop),
    }
}

/// A replacement starts by writing the temporary file.
pub fn tx_start() -> (r: (TxState, TxAction))
    ensures
        r == (TxState::Staging, TxAction::WriteTemp),
{
    (TxState::Staging, TxAction::WriteTemp)
}

/// The next state and action of a replacement.
pub fn tx_next(state: TxState, ok: bool, no_bup: bool, write_error: i32) -> (r: (
    TxState,
    TxAction,
))
    ensures
        r == tx_next_spec(state, ok, no_bup, write_error),
{
    match state {
        TxState::Staging => if !ok {
            (TxState::Failed(write_error), TxAction::DeleteTemp)
        } else if no_bup {
            (TxState::Committing, TxAction::RenameTemp)
        } else {
            (TxState::BackingUp, TxAction::BackupTarget)
        },
        TxState::BackingUp => if ok {
            (TxState::Committing, TxAction::RenameTemp)
        } else {
            (TxState::Failed(ERR_FILE_BACKUP), TxAction::DeleteTemp)
        },
        TxState::Committing => if ok {
            (TxState::Done, TxAction::Stop)
        } else {
            (TxState::Failed(ERR_FIX_FILE_COPY), TxAction::DeleteTemp)
        },
        TxState::Done => (TxState::Done, TxAction::Stop),
        TxState::Failed(e) => (TxState::Failed(e), TxAction::Stop),
    }
}

/// The target is touched only by the rename, and the rename comes only after
/// the temporary file was written and, unless backups are off, the backup
/// was taken.
pub proof fn lemma_rename_only_after_stage_and_backup(
    state: TxState,
    ok: bool,
    no_bup: bool,
    write_error: i32,
)
    ensures
        tx_next_spec(state, ok, no_bup, write_error).1 == TxAction::RenameTemp ==> ok && (
        state == TxState::BackingUp || (state == TxState::Staging && no_bup)),
{
}

} // verus!
