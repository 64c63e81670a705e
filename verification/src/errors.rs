use vstd::prelude::*;

verus! {

/// Status code a guard sends on the synchronization channel once every
/// construction phase has finished successfully.
pub const SUCCESS: i32 = -10000;

/// Status code for a failure while mounting the guard's private procfs.
pub const EMNT_PROC: i32 = -1;

/// Status code for a failure while binding or mounting the package image.
pub const EMNT_LOOP: i32 = -2;

/// Status code for a failure while building one of the overlay mounts.
pub const EMNT_OVERLAY: i32 = -3;

/// Status code for a failure while entering the new user namespace.
pub const EUNSHARE_USER: i32 = -4;

/// Status code for a failure while setting the guard's display identity.
pub const ESET_PROCNAME: i32 = -5;

/// Status code for a failure while making the root mount recursively private.
pub const EMAKE_PRIVATE: i32 = -6;

/// The failure kinds the library reports.
///
/// Validation kinds reject a request before any resource is touched; the
/// guard-lifecycle kinds mirror the construction phases of the guard process;
/// `Sys` carries the raw `errno` of a failed system call; `Timeout` reports a
/// guard that did not acknowledge a construction phase in time.
#[derive(Clone, Copy, Debug, PartialEq, Eq, Structural)]
pub enum RockerErr {
    /// The target user id does not resolve to a real account.
    UidInvalid,
    /// The target group id does not resolve to a real group.
    GidInvalid,
    /// A configured path exists but has the wrong kind, or cannot be created.
    PathInvalid,
    /// A wire request is truncated or inconsistent.
    BadRequest,
    /// The guard could not make its root mount recursively private.
    MntPrivate,
    /// The guard could not set its display identity.
    SetProcName,
    /// The guard could not mount its isolated procfs.
    MntProc,
    /// The guard could not bind or mount the package image.
    MntLoop,
    /// The guard could not build an overlay mount.
    MntOverlay,
    /// The guard could not enter a new user namespace.
    UnshareUser,
    /// The guard did not acknowledge a construction phase within the bounded wait.
    Timeout,
    /// A registry entry already exists for the guard's process id.
    GuardDup,
    /// A value that the operation needs has not been set.
    OptionNone,
    /// A system call failed; the payload is the reported `errno`.
    Sys(i32),
    /// An unexpected condition with no more specific kind.
    Unknown,
}

/// The failure kind that a negative guard status code stands for.
///
/// Every code outside the known protocol set maps to `Unknown`.
pub open spec fn spec_status_err(code: i32) -> RockerErr {
    if code == EMAKE_PRIVATE {
        RockerErr::MntPrivate
    } else if code == ESET_PROCNAME {
        RockerErr::SetProcName
    } else if code == EMNT_PROC {
        RockerErr::MntProc
    } else if code == EMNT_LOOP {
        RockerErr::MntLoop
    } else if code == EMNT_OVERLAY {
        RockerErr::MntOverlay
    } else if code == EUNSHARE_USER {
        RockerErr::UnshareUser
    } else {
        RockerErr::Unknown
    }
}

/// Maps a guard status code to the failure kind it stands for.
pub fn status_err(code: i32) -> (r: RockerErr)
    ensures
        r == spec_status_err(code),
{
    if code == EMAKE_PRIVATE {
        RockerErr::MntPrivate
    } else if code == ESET_PROCNAME {
        RockerErr::SetProcName
    } else if code == EMNT_PROC {
        RockerErr::MntProc
    } else if code == EMNT_LOOP {
        RockerErr::MntLoop
    } else if code == EMNT_OVERLAY {
        RockerErr::MntOverlay
    } else if code == EUNSHARE_USER {
        RockerErr::UnshareUser
    } else {
        RockerErr::Unknown
    }
}

/// Interprets the first message of the construction handshake: a
/// non-negative value is the allocated loop device id, a negative value is
/// the status code of the phase that failed.
pub fn interpret_loop_msg(v: i32) -> (r: Result<u32, RockerErr>)
    ensures
        v >= 0 ==> r == Ok::<u32, RockerErr>(v as u32),
        v < 0 ==> r == Err::<u32, RockerErr>(spec_status_err(v)),
{
    if v >= 0 {
        Ok(v as u32)
    } else {
        Err(status_err(v))
    }
}

/// Interprets the second message of the construction handshake: the guard
/// reports `SUCCESS`, or the status code of the phase that failed.
pub fn interpret_status(v: i32) -> (r: Result<(), RockerErr>)
    ensures
        v == SUCCESS ==> r == Ok::<(), RockerErr>(()),
        v != SUCCESS ==> r == Err::<(), RockerErr>(spec_status_err(v)),
{
    if v == SUCCESS {
        Ok(())
    } else {
        Err(status_err(v))
    }
}

} // verus!
