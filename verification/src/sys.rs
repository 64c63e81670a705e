//! Trusted wrappers around the system-call bindings of the `nix` crate.
//!
//! Each wrapper holds exactly one outside call and converts its arguments
//! and result to plain values: paths are byte strings, descriptors and
//! errors are integers. What a call returns depends on the machine's state,
//! so the contracts state only what holds of every outcome.

use vstd::prelude::*;

verus! {

/// The `errno` value reporting that an operation would block.
pub const ERRNO_AGAIN: i32 = 11;

/// The `errno` value reporting that a path already exists.
pub const ERRNO_EXIST: i32 = 17;

/// Relies on nix::fcntl::open with O_WRONLY: on success the result is a
/// valid (non-negative) file descriptor.
#[verifier::external_body]
pub(crate) fn sys_open_w(path: &Vec<u8>) -> (r: Result<i32, i32>)
    ensures
        r matches Ok(fd) ==> fd >= 0,
{
    match nix::fcntl::open(
        &path[..],
        nix::fcntl::OFlag::O_WRONLY,
        nix::sys::stat::Mode::empty(),
    ) {
        Ok(fd) => Ok(fd),
        Err(e) => Err(e as i32),
    }
}

/// Relies on nix::fcntl::open with O_RDONLY: on success the result is a
/// valid (non-negative) file descriptor.
#[verifier::external_body]
pub(crate) fn sys_open_r(path: &Vec<u8>) -> (r: Result<i32, i32>)
    ensures
        r matches Ok(fd) ==> fd >= 0,
{
    match nix::fcntl::open(
        &path[..],
        nix::fcntl::OFlag::O_RDONLY,
        nix::sys::stat::Mode::empty(),
    ) {
        Ok(fd) => Ok(fd),
        Err(e) => Err(e as i32),
    }
}

/// Relies on nix::unistd::write: at most `buf` is written and the count of
/// written bytes is returned.
#[verifier::external_body]
pub(crate) fn sys_write(fd: i32, buf: &Vec<u8>) -> (r: Result<usize, i32>)
    ensures
        r matches Ok(n) ==> n <= buf@.len(),
{
    match nix::unistd::write(fd, &buf[..]) {
        Ok(n) => Ok(n),
        Err(e) => Err(e as i32),
    }
}

/// Relies on nix::unistd::close.
#[verifier::external_body]
pub(crate) fn sys_close(fd: i32) -> (r: Result<(), i32>) {
    match nix::unistd::close(fd) {
        Ok(()) => Ok(()),
        Err(e) => Err(e as i32),
    }
}

/// Relies on nix::sys::socket::recv with MSG_DONTWAIT: the buffer keeps its
/// length and on success the count of received bytes is returned.
#[verifier::external_body]
pub(crate) fn sys_recv_nonblock(fd: i32, buf: &mut Vec<u8>) -> (r: Result<usize, i32>)
    ensures
        final(buf)@.len() == old(buf)@.len(),
        r matches Ok(n) ==> n <= old(buf)@.len(),
{
    match nix::sys::socket::recv(fd, buf.as_mut_slice(), nix::sys::socket::MsgFlags::MSG_DONTWAIT)
    {
        Ok(n) => Ok(n),
        Err(e) => Err(e as i32),
    }
}

/// Relies on nix::poll::poll on one descriptor waiting for input: on
/// success the count of ready descriptors is returned, zero meaning the
/// wait timed out.
#[verifier::external_body]
pub(crate) fn sys_poll_in(fd: i32, timeout_ms: i32) -> (r: Result<i32, i32>)
    ensures
        r matches Ok(n) ==> n >= 0,
{
    let mut fds = [nix::poll::PollFd::new(fd, nix::poll::PollFlags::POLLIN)];
    match nix::poll::poll(&mut fds, timeout_ms) {
        Ok(n) => Ok(n),
        Err(e) => Err(e as i32),
    }
}

/// Relies on nix::sys::signal::kill with SIGKILL; a failure (the process is
/// already gone) is ignored.
#[verifier::external_body]
pub(crate) fn sys_kill_sigkill(pid: i32) {
    let _ = nix::sys::signal::kill(
        nix::unistd::Pid::from_raw(pid),
        nix::sys::signal::Signal::SIGKILL,
    );
}

/// Relies on nix::sys::stat::stat: on success the file's `st_mode` is
/// returned.
#[verifier::external_body]
pub(crate) fn sys_stat_mode(path: &Vec<u8>) -> (r: Result<u32, i32>) {
    match nix::sys::stat::stat(&path[..]) {
        Ok(st) => Ok(st.st_mode),
        Err(e) => Err(e as i32),
    }
}

/// Relies on nix::unistd::mkdir with mode 0o755.
#[verifier::external_body]
pub(crate) fn sys_mkdir(path: &Vec<u8>) -> (r: Result<(), i32>) {
    match nix::unistd::mkdir(&path[..], nix::sys::stat::Mode::from_bits_truncate(0o755)) {
        Ok(()) => Ok(()),
        Err(e) => Err(e as i32),
    }
}

/// Relies on nix::unistd::User::from_uid: reports whether the user id
/// resolves to an account.
#[verifier::external_body]
pub(crate) fn sys_uid_exists(uid: u32) -> (r: Result<bool, i32>) {
    match nix::unistd::User::from_uid(nix::unistd::Uid::from_raw(uid)) {
        Ok(opt) => Ok(opt.is_some()),
        Err(e) => Err(e as i32),
    }
}

/// Relies on nix::unistd::Group::from_gid: reports whether the group id
/// resolves to a group.
#[verifier::external_body]
pub(crate) fn sys_gid_exists(gid: u32) -> (r: Result<bool, i32>) {
    match nix::unistd::Group::from_gid(nix::unistd::Gid::from_raw(gid)) {
        Ok(opt) => Ok(opt.is_some()),
        Err(e) => Err(e as i32),
    }
}

} // verus!
