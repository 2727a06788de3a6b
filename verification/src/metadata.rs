//! The metadata version gate. All persisted state carries a schema
//! version; every management command except the explicit upgrade and
//! the full wipe must see the version this binary expects before it may
//! touch that state. Nothing migrates silently.

use vstd::prelude::*;

use crate::dispatch::ManagementCommand;
use crate::errors::Error;

verus! {

/// The schema version this binary writes and expects.
pub const METADATA_VERSION: u64 = 2;

/// The two states of the version guard.
#[derive(Debug, Clone, Copy, PartialEq, Eq, Structural)]
pub enum GateState {
    Current,
    Stale,
}

/// The two commands that bypass the version guard: the upgrade that exists to
/// mend a stale store, and the wipe that destroys it regardless.
pub open spec fn spec_bypasses_gate(c: ManagementCommand) -> bool {
    c is UpgradeData || c is DeleteData
}

/// Whether the version guard lets a command proceed against a stored version.
pub open spec fn spec_gate_allows(c: ManagementCommand, stored: u64) -> bool {
    spec_bypasses_gate(c) || stored == METADATA_VERSION
}

pub fn bypasses_gate(c: &ManagementCommand) -> (r: bool)
    ensures
        r == spec_bypasses_gate(*c),
{
    match c {
        ManagementCommand::UpgradeData => true,
        ManagementCommand::DeleteData => true,
        _ => false,
    }
}

pub fn gate_state(stored: u64) -> (s: GateState)
    ensures
        s == (if stored == METADATA_VERSION {
            GateState::Current
        } else {
            GateState::Stale
        }),
{
    if stored == METADATA_VERSION {
        GateState::Current
    } else {
        GateState::Stale
    }
}

/// The check every gated command runs first: refuse a stale store.
pub fn check_metadata_version(stored: u64) -> (r: Result<(), Error>)
    ensures
        r is Ok <==> stored == METADATA_VERSION,
        r matches Err(e) ==> e is MetadataVersionMismatch,
{
    if stored == METADATA_VERSION {
        Ok(())
    } else {
        Err(Error::MetadataVersionMismatch)
    }
}

/// Gate one command: the two bypass commands always proceed, every
/// other command only against a current store.
pub fn gate_command(c: &ManagementCommand, stored: u64) -> (r: Result<(), Error>)
    ensures
        r is Ok <==> spec_gate_allows(*c, stored),
        r matches Err(e) ==> e is MetadataVersionMismatch,
{
    if bypasses_gate(c) {
        Ok(())
    } else {
        check_metadata_version(stored)
    }
}

/// The version-guard law: against a stale store every gated command is refused
/// with a version mismatch, while the bypass commands proceed; and once
/// the store is upgraded to the current version, every command passes.
pub proof fn lemma_metadata_gate(stored: u64, c: ManagementCommand)
    requires
        stored != METADATA_VERSION,
    ensures
        !spec_bypasses_gate(c) ==> !spec_gate_allows(c, stored),
        spec_bypasses_gate(c) ==> spec_gate_allows(c, stored),
        spec_gate_allows(c, METADATA_VERSION),
{
}

} // verus!
