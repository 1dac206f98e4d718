//! The sandbox a module runs in, and what its run comes to.

use vstd::prelude::*;
use std::path::Path;

verus! {

#[verifier::external_type_specification]
#[verifier::external_body]
pub struct ExPath(std::path::Path);

/// CPU and memory bounds of a module run.
#[derive(Debug, Clone, Copy, PartialEq, Eq, Structural)]
pub struct Limits {
    /// Fuel units the module may consume before it traps.
    pub fuel: u64,
    /// Bytes of linear memory the module may grow to.
    pub memory_bytes: u64,
}

/// The sandbox a module runs in. The module sees exactly one directory
/// (mounted at "."), its argv, and the inherited stdout/stderr; `limits`
/// bound how much CPU and memory it may consume.
pub struct Sandbox<'a> {
    pub dir: &'a Path,
    pub writable: bool,
    pub argv: Vec<String>,
    pub limits: Limits,
}

/// Rights on the mounted directory.
#[derive(Debug, Clone, Copy, PartialEq, Eq, Structural)]
pub enum DirAccess {
    /// List and open entries only.
    Read,
    /// Also create, rename and remove entries.
    ReadMutate,
}

/// Rights on the files in the mounted directory.
#[derive(Debug, Clone, Copy, PartialEq, Eq, Structural)]
pub enum FileAccess {
    Read,
    ReadWrite,
}

/// What a module may do to the directory it is given.
#[derive(Debug, Clone, Copy, PartialEq, Eq, Structural)]
pub struct Permissions {
    pub dir: DirAccess,
    pub file: FileAccess,
}

/// The permissions a sandbox grants: everything on a writable mount,
/// reading only otherwise.
pub open spec fn permissions_spec(writable: bool) -> Permissions {
    if writable {
        Permissions { dir: DirAccess::ReadMutate, file: FileAccess::ReadWrite }
    } else {
        Permissions { dir: DirAccess::Read, file: FileAccess::Read }
    }
}

/// The permissions with which the sandbox's directory is mounted.
pub fn permissions(writable: bool) -> (p: Permissions)
    ensures
        p == permissions_spec(writable),
{
    if writable {
        Permissions { dir: DirAccess::ReadMutate, file: FileAccess::ReadWrite }
    } else {
        Permissions { dir: DirAccess::Read, file: FileAccess::Read }
    }
}

/// How a module's `_start` ended.
#[derive(Debug, Clone, Copy, PartialEq, Eq, Structural)]
pub enum RunOutcome {
    /// `_start` returned.
    Completed,
    /// The module called `proc_exit` with this code.
    Exited(i32),
    /// Anything else: a trap, running out of fuel or memory, a crash.
    Trapped,
}

/// A run that did not end with an exit code.
#[derive(Debug, Clone, Copy, PartialEq, Eq, Structural)]
pub struct ModuleTrapped;

/// The exit code that a run comes to: 0 when `_start` returns, the code
/// passed to `proc_exit`, and no code for a trap.
pub fn exit_code(outcome: RunOutcome) -> (r: Result<i32, ModuleTrapped>)
    ensures
        r == match outcome {
            RunOutcome::Completed => Ok::<i32, ModuleTrapped>(0),
            RunOutcome::Exited(c) => Ok(c),
            RunOutcome::Trapped => Err(ModuleTrapped),
        },
{
    match outcome {
        RunOutcome::Completed => Ok(0),
        RunOutcome::Exited(c) => Ok(c),
        RunOutcome::Trapped => Err(ModuleTrapped),
    }
}

} // verus!
