//! The master side of sandbox construction.
//!
//! A `RockerCfg` wraps a validated request plus the build state of its
//! guard: the guard's process id, its 16-byte display identity, the memory
//! region backing its stack, and the loop device bound to the package. The
//! master spawns the guard (the one host-kernel dependency, isolated behind
//! the caller), then drives the bounded handshake: it receives the loop
//! device id, then the construction status, maps a failure to its kind,
//! kills a guard that failed or fell silent, and on success writes the
//! guard's user and group id mappings.

use vstd::prelude::*;
use vstd::string::StringSliceAdditionalSpecFns;
use crate::bytesfmt::{push_all, push_all_slice, spec_u32_dec, u32_dec};
use crate::errors::{RockerErr, interpret_loop_msg, interpret_status};
use crate::guard::{GuardCmd, guard_name_bytes, spec_guard_name, spec_guard_script, spec_name_wf};
use crate::registry::{ResourceRegistry, spec_register};
use crate::sys::{ERRNO_AGAIN, ERRNO_EXIST, sys_close, sys_gid_exists, sys_kill_sigkill, sys_mkdir,
    sys_open_r, sys_open_w, sys_poll_in, sys_recv_nonblock, sys_stat_mode, sys_uid_exists,
    sys_write};

verus! {

/// Byte size of the stack region handed to a new guard process.
pub const STACK_SIZE: usize = 2 * 1024 * 1024;

/// Seconds the master waits for each handshake message.
pub const HANDSHAKE_TIMEOUT_SECS: u32 = 2;

/// Seconds of grace between unbinding a loop device and destroying it.
pub const RELEASE_GRACE_SECS: u64 = 2;

/// File-kind bits of a `st_mode` value.
pub const MODE_KIND_MASK: u32 = 0o170000;

/// The `st_mode` kind of a directory.
pub const MODE_KIND_DIR: u32 = 0o040000;

/// The `st_mode` kind of a regular file.
pub const MODE_KIND_REG: u32 = 0o100000;

/// A sandbox configuration: the validated request and the guard's build
/// state.
pub struct RockerCfg {
    /// Application identifier.
    pub app_id: u32,
    /// User id the application runs as.
    pub uid: u32,
    /// Group id the application runs as, when one was given.
    pub gid: Option<u32>,
    /// Path of the read-only application package file.
    pub app_pkg_path: Vec<u8>,
    /// Directory the package is mounted onto.
    pub app_exec_dir: Vec<u8>,
    /// Root directory for the sandbox's writable data.
    pub app_data_dir: Vec<u8>,
    /// Top-level directories shadowed by writable overlays.
    pub app_overlay_dirs: Vec<Vec<u8>>,
    /// Process id of the guard, set by `init` once the guard is spawned.
    guard_pid: Option<u32>,
    /// The guard's 16-byte display identity, assigned at construction and
    /// immutable thereafter.
    guard_pname: Vec<u8>,
    /// The memory region backing the guard's stack, owned by this
    /// configuration until the guard exits.
    guard_stack: Option<Vec<u8>>,
    /// Id of the loop device bound to the package, reported by the guard.
    guard_loop_id: Option<u32>,
}

/// The mathematical content of a configuration: the request, the identity,
/// and the guard's build state.
#[verifier::ext_equal]
pub ghost struct CfgView {
    pub app_id: u32,
    pub uid: u32,
    pub gid: Option<u32>,
    pub pkg: Seq<u8>,
    pub exec_dir: Seq<u8>,
    pub data_dir: Seq<u8>,
    pub overlays: Seq<Seq<u8>>,
    pub guard_pid: Option<u32>,
    pub pname: Seq<u8>,
    pub has_stack: bool,
    pub loop_id: Option<u32>,
}

impl View for RockerCfg {
    type V = CfgView;

    closed spec fn view(&self) -> CfgView {
        CfgView {
            app_id: self.app_id,
            uid: self.uid,
            gid: self.gid,
            pkg: self.app_pkg_path@,
            exec_dir: self.app_exec_dir@,
            data_dir: self.app_data_dir@,
            overlays: self.app_overlay_dirs.deep_view(),
            guard_pid: self.guard_pid,
            pname: self.guard_pname@,
            has_stack: self.guard_stack is Some,
            loop_id: self.guard_loop_id,
        }
    }
}

/// What a spawned guard hands back to the master: the new process id, the
/// master's end of the synchronization channel, and the stack region the
/// guard runs on, which the configuration takes into ownership.
pub struct GuardLaunch {
    /// Process id of the spawned guard.
    pub pid: i32,
    /// The master's end of the synchronization channel.
    pub master_fd: i32,
    /// The stack region the guard was started on.
    pub stack: Vec<u8>,
}

/// The cleanup a released sandbox still needs from the kernel: the loop
/// device to unbind and destroy, and the grace period between the two.
pub struct ReleasePlan {
    /// Path of the loop device to unbind, when one was bound.
    pub unbind_path: Option<Vec<u8>>,
    /// Id of the loop device to destroy, best-effort, after the grace
    /// period.
    pub loop_id: Option<u32>,
    /// Seconds to wait between unbinding and destroying.
    pub grace_secs: u64,
}

/// Both configurations hold the same request and identity.
pub open spec fn spec_same_request(a: RockerCfg, b: RockerCfg) -> bool {
    &&& a@.app_id == b@.app_id
    &&& a@.uid == b@.uid
    &&& a@.gid == b@.gid
    &&& a@.pkg == b@.pkg
    &&& a@.exec_dir == b@.exec_dir
    &&& a@.data_dir == b@.data_dir
    &&& a@.overlays == b@.overlays
    &&& a@.pname == b@.pname
}

/// The device path of loop device `id`.
pub open spec fn spec_loop_dev_path(id: u32) -> Seq<u8> {
    "/dev/loop".spec_bytes() + spec_u32_dec(id)
}

/// Builds the device path of loop device `id`.
pub fn loop_dev_path(id: u32) -> (r: Vec<u8>)
    ensures
        r@ == spec_loop_dev_path(id),
{
    let mut v: Vec<u8> = Vec::new();
    push_all_slice(&mut v, "/dev/loop".as_bytes());
    let d = u32_dec(id);
    push_all(&mut v, &d);
    v
}

/// Opens the device node of loop device `id` read-only; the caller owns the
/// returned descriptor.
pub fn loop_open(id: u32) -> (r: Result<i32, RockerErr>)
    ensures
        r matches Ok(fd) ==> fd >= 0,
        r matches Err(e) ==> e matches RockerErr::Sys(_),
{
    let path = loop_dev_path(id);
    match sys_open_r(&path) {
        Ok(fd) => Ok(fd),
        Err(e) => Err(RockerErr::Sys(e)),
    }
}

/// Distinct loop device ids have distinct device paths: the path a guard
/// reports identifies the device that later cleanup unbinds and destroys.
pub proof fn lemma_loop_path_identifies(a: u32, b: u32)
    requires
        spec_loop_dev_path(a) == spec_loop_dev_path(b),
    ensures
        a == b,
{
    let p = "/dev/loop".spec_bytes();
    let da = spec_u32_dec(a);
    let db = spec_u32_dec(b);
    crate::bytesfmt::lemma_dec_roundtrip(a);
    crate::bytesfmt::lemma_dec_roundtrip(b);
    assert(da =~= (p + da).subrange(p.len() as int, (p + da).len() as int));
    assert(db =~= (p + db).subrange(p.len() as int, (p + db).len() as int));
    assert(da == db);
}

/// The per-process file that maps user ids inside the guard's namespace.
pub open spec fn spec_uid_map_path(pid: u32) -> Seq<u8> {
    "/proc/".spec_bytes() + spec_u32_dec(pid) + "/uid_map".spec_bytes()
}

/// The per-process file that maps group ids inside the guard's namespace.
pub open spec fn spec_gid_map_path(pid: u32) -> Seq<u8> {
    "/proc/".spec_bytes() + spec_u32_dec(pid) + "/gid_map".spec_bytes()
}

/// The per-process file that locks group membership changes.
pub open spec fn spec_setgroups_path(pid: u32) -> Seq<u8> {
    "/proc/".spec_bytes() + spec_u32_dec(pid) + "/setgroups".spec_bytes()
}

/// The single-id mapping line written into a map file: namespace id zero
/// maps to host id `id`, length one.
pub open spec fn spec_idmap_line(id: u32) -> Seq<u8> {
    "0 ".spec_bytes() + spec_u32_dec(id) + " 1".spec_bytes()
}

/// Builds the path of the guard's user id map file.
pub fn uid_map_path(pid: u32) -> (r: Vec<u8>)
    ensures
        r@ == spec_uid_map_path(pid),
{
    let mut v: Vec<u8> = Vec::new();
    push_all_slice(&mut v, "/proc/".as_bytes());
    let d = u32_dec(pid);
    push_all(&mut v, &d);
    push_all_slice(&mut v, "/uid_map".as_bytes());
    v
}

/// Builds the path of the guard's group id map file.
pub fn gid_map_path(pid: u32) -> (r: Vec<u8>)
    ensures
        r@ == spec_gid_map_path(pid),
{
    let mut v: Vec<u8> = Vec::new();
    push_all_slice(&mut v, "/proc/".as_bytes());
    let d = u32_dec(pid);
    push_all(&mut v, &d);
    push_all_slice(&mut v, "/gid_map".as_bytes());
    v
}

/// Builds the path of the guard's setgroups file.
pub fn setgroups_path(pid: u32) -> (r: Vec<u8>)
    ensures
        r@ == spec_setgroups_path(pid),
{
    let mut v: Vec<u8> = Vec::new();
    push_all_slice(&mut v, "/proc/".as_bytes());
    let d = u32_dec(pid);
    push_all(&mut v, &d);
    push_all_slice(&mut v, "/setgroups".as_bytes());
    v
}

/// Builds the single-id mapping line for host id `id`.
pub fn idmap_line(id: u32) -> (r: Vec<u8>)
    ensures
        r@ == spec_idmap_line(id),
{
    let mut v: Vec<u8> = Vec::new();
    push_all_slice(&mut v, "0 ".as_bytes());
    let d = u32_dec(id);
    push_all(&mut v, &d);
    push_all_slice(&mut v, " 1".as_bytes());
    v
}

/// Opens `path`, writes `content` whole, and closes it.
fn write_file(path: &Vec<u8>, content: &Vec<u8>) -> (r: Result<(), RockerErr>)
    ensures
        r matches Err(e) ==> (e matches RockerErr::Sys(_)) || e == RockerErr::Unknown,
{
    let fd = match sys_open_w(path) {
        Ok(fd) => fd,
        Err(e) => {
            return Err(RockerErr::Sys(e));
        },
    };
    let mut off: usize = 0;
    while off < content.len()
        invariant
            off <= content@.len(),
        decreases content@.len() - off,
    {
        let rest = tail_vec(content, off);
        match sys_write(fd, &rest) {
            Ok(n) => {
                if n == 0 {
                    // A writer that accepts nothing makes no progress.
                    let _ = sys_close(fd);
                    return Err(RockerErr::Unknown);
                }
                off = off + n;
            },
            Err(e) => {
                let _ = sys_close(fd);
                return Err(RockerErr::Sys(e));
            },
        }
    }
    let _ = sys_close(fd);
    Ok(())
}

/// Copies the bytes of `v` from `lo` on.
fn tail_vec(v: &Vec<u8>, lo: usize) -> (r: Vec<u8>)
    requires
        lo <= v@.len(),
    ensures
        r@ == v@.skip(lo as int),
        r@.len() == v@.len() - lo,
{
    let mut r: Vec<u8> = Vec::new();
    let mut i: usize = lo;
    while i < v.len()
        invariant
            lo <= i <= v@.len(),
            r@ == v@.subrange(lo as int, i as int),
        decreases v@.len() - i,
    {
        r.push(v[i]);
        proof {
            assert(v@.subrange(lo as int, i as int + 1) =~= v@.subrange(lo as int, i as int).push(
                v@[i as int]));
        }
        i = i + 1;
    }
    proof {
        assert(v@.subrange(lo as int, v@.len() as int) =~= v@.skip(lo as int));
    }
    r
}

/// Receives one datagram into `buf`, waiting at most `timeout_secs`: a
/// quiet channel is a `Timeout`, any other failure carries its `errno`.
pub fn recv_timed(fd: i32, buf: &mut Vec<u8>, timeout_secs: u32) -> (r: Result<usize, RockerErr>)
    requires
        timeout_secs <= 2147483,
    ensures
        final(buf)@.len() == old(buf)@.len(),
        r matches Ok(n) ==> n <= old(buf)@.len(),
        r matches Err(e) ==> e == RockerErr::Timeout || e matches RockerErr::Sys(_),
{
    match sys_recv_nonblock(fd, buf) {
        Ok(n) => Ok(n),
        Err(e) => {
            if e != ERRNO_AGAIN {
                return Err(RockerErr::Sys(e));
            }
            match sys_poll_in(fd, (timeout_secs as i32) * 1000) {
                Ok(ready) => {
                    if ready == 0 {
                        return Err(RockerErr::Timeout);
                    }
                    match sys_recv_nonblock(fd, buf) {
                        Ok(n) => Ok(n),
                        Err(e2) => {
                            if e2 == ERRNO_AGAIN {
                                Err(RockerErr::Timeout)
                            } else {
                                Err(RockerErr::Sys(e2))
                            }
                        },
                    }
                },
                Err(pe) => Err(RockerErr::Sys(pe)),
            }
        },
    }
}

/// The signed value of four little-endian bytes.
pub open spec fn spec_i32_of(b: Seq<u8>) -> int {
    if crate::wire::spec_word_of(b) < 0x8000_0000 {
        crate::wire::spec_word_of(b)
    } else {
        crate::wire::spec_word_of(b) - 0x1_0000_0000
    }
}

/// Reads a 32-bit signed value from four little-endian bytes.
fn i32_from_le(b: &Vec<u8>) -> (r: i32)
    requires
        b@.len() == 4,
    ensures
        r == spec_i32_of(b@),
{
    let w: u32 = (b[0] as u32) + 256 * (b[1] as u32) + 65536 * (b[2] as u32) + 16777216 * (
    b[3] as u32);
    proof {
        let s = b@.subrange(0, 4);
        assert(s =~= b@);
        assert(crate::wire::spec_word_of(b@) == w);
    }
    if w < 0x8000_0000 {
        w as i32
    } else {
        let d: u32 = 0xFFFF_FFFFu32 - w;
        -(d as i32) - 1
    }
}

/// Receives one four-byte handshake message and returns its signed value.
fn recv_status(fd: i32, timeout_secs: u32) -> (r: Result<i32, RockerErr>)
    requires
        timeout_secs <= 2147483,
    ensures
        r matches Err(e) ==> e == RockerErr::Timeout || e matches RockerErr::Sys(_)
            || e == RockerErr::Unknown,
{
    let mut buf: Vec<u8> = Vec::new();
    buf.push(0);
    buf.push(0);
    buf.push(0);
    buf.push(0);
    match recv_timed(fd, &mut buf, timeout_secs) {
        Ok(n) => {
            if n != 4 {
                return Err(RockerErr::Unknown);
            }
            Ok(i32_from_le(&buf))
        },
        Err(e) => Err(e),
    }
}

/// Creates `path` as a directory, parents included; an existing directory
/// is accepted.
fn create_dir_all(path: &Vec<u8>) -> (r: Result<(), RockerErr>)
    ensures
        r matches Err(e) ==> e == RockerErr::PathInvalid || e matches RockerErr::Sys(_),
{
    let mut i: usize = 1;
    while i < path.len()
        invariant
            1 <= i,
        decreases path@.len() - i,
    {
        if path[i] == 47 {
            let prefix = prefix_vec(path, i);
            let _ = sys_mkdir(&prefix);
        }
        i = i + 1;
    }
    match sys_mkdir(path) {
        Ok(()) => Ok(()),
        Err(e) => {
            if e == ERRNO_EXIST {
                match sys_stat_mode(path) {
                    Ok(mode) => {
                        if mode & MODE_KIND_MASK == MODE_KIND_DIR {
                            Ok(())
                        } else {
                            Err(RockerErr::PathInvalid)
                        }
                    },
                    Err(e2) => Err(RockerErr::Sys(e2)),
                }
            } else {
                Err(RockerErr::Sys(e))
            }
        },
    }
}

/// Copies the first `n` bytes of `v`.
fn prefix_vec(v: &Vec<u8>, n: usize) -> (r: Vec<u8>)
    requires
        n <= v@.len(),
    ensures
        r@ == v@.take(n as int),
{
    let mut r: Vec<u8> = Vec::new();
    let mut i: usize = 0;
    while i < n
        invariant
            0 <= i <= n <= v@.len(),
            r@ == v@.take(i as int),
        decreases n - i,
    {
        r.push(v[i]);
        proof {
            assert(v@.take(i as int + 1) =~= v@.take(i as int).push(v@[i as int]));
        }
        i = i + 1;
    }
    r
}

/// Allocates the zeroed stack region for a new guard process.
pub fn alloc_guard_stack() -> (r: Vec<u8>)
    ensures
        r@.len() == STACK_SIZE,
{
    let mut v: Vec<u8> = Vec::with_capacity(STACK_SIZE);
    let mut i: usize = 0;
    while i < STACK_SIZE
        invariant
            v@.len() == i,
            0 <= i <= STACK_SIZE,
        decreases STACK_SIZE - i,
    {
        v.push(0);
        i = i + 1;
    }
    v
}

impl RockerCfg {
    /// The configuration's internal invariant: its identity is a
    /// well-formed 16-byte name.
    pub open spec fn wf(&self) -> bool {
        spec_name_wf(self@.pname)
    }

    /// The loop device id the guard reported, when one is bound.
    pub fn get_loop_id(&self) -> (r: Option<u32>)
        ensures
            r == self@.loop_id,
    {
        self.guard_loop_id
    }

    /// Whether the configuration still owns the guard's stack region.
    pub fn has_stack(&self) -> (r: bool)
        ensures
            r == self@.has_stack,
    {
        match self.guard_stack {
            Some(_) => true,
            None => false,
        }
    }

    /// Validates a request and builds its configuration.
    ///
    /// The target user id and, when given, group id must resolve to real
    /// accounts; the exec and data directories must exist as directories or
    /// be creatable; the package path must name a regular file. Each
    /// violated precondition fails with its own kind, and nothing is built.
    /// The guard's identity is generated here, from the caller's counter
    /// value, and never changes afterwards; distinct counter values below
    /// `GUARD_COUNTER_BOUND` yield distinct identities
    /// (`lemma_guard_name_injective`), so a process-wide decreasing counter
    /// keeps concurrently built sandboxes apart.
    pub fn new(
        app_id: u32,
        uid: u32,
        gid: Option<u32>,
        app_pkg_path: Vec<u8>,
        app_exec_dir: Vec<u8>,
        app_data_dir: Vec<u8>,
        app_overlay_dirs: Vec<Vec<u8>>,
        name_counter: u128,
    ) -> (r: Result<RockerCfg, RockerErr>)
        ensures
            r matches Ok(cfg) ==> {
                &&& cfg.wf()
                &&& cfg@.app_id == app_id
                &&& cfg@.uid == uid
                &&& cfg@.gid == gid
                &&& cfg@.pkg == app_pkg_path@
                &&& cfg@.exec_dir == app_exec_dir@
                &&& cfg@.data_dir == app_data_dir@
                &&& cfg@.overlays == app_overlay_dirs.deep_view()
                &&& cfg@.guard_pid is None
                &&& !cfg@.has_stack
                &&& cfg@.loop_id is None
                &&& cfg@.pname == spec_guard_name(name_counter)
            },
            r matches Err(e) ==> (e == RockerErr::UidInvalid || e == RockerErr::GidInvalid || e
                == RockerErr::PathInvalid || e matches RockerErr::Sys(_)),
    {
        match sys_uid_exists(uid) {
            Ok(true) => {},
            _ => {
                return Err(RockerErr::UidInvalid);
            },
        }
        match gid {
            Some(g) => {
                match sys_gid_exists(g) {
                    Ok(true) => {},
                    _ => {
                        return Err(RockerErr::GidInvalid);
                    },
                }
            },
            None => {},
        }
        match Self::check_dir(&app_exec_dir) {
            Ok(()) => {},
            Err(e) => {
                return Err(e);
            },
        }
        match Self::check_dir(&app_data_dir) {
            Ok(()) => {},
            Err(e) => {
                return Err(e);
            },
        }
        match sys_stat_mode(&app_pkg_path) {
            Ok(mode) => {
                if mode & MODE_KIND_MASK != MODE_KIND_REG {
                    return Err(RockerErr::PathInvalid);
                }
            },
            Err(e) => {
                return Err(RockerErr::Sys(e));
            },
        }
        Ok(
            RockerCfg {
                app_id,
                uid,
                gid,
                app_pkg_path,
                app_exec_dir,
                app_data_dir,
                app_overlay_dirs,
                guard_pid: None,
                guard_pname: guard_name_bytes(name_counter),
                guard_stack: None,
                guard_loop_id: None,
            },
        )
    }

    /// The path must be a directory, or not exist and then be created.
    fn check_dir(path: &Vec<u8>) -> (r: Result<(), RockerErr>)
        ensures
            r matches Err(e) ==> e == RockerErr::PathInvalid || e matches RockerErr::Sys(_),
    {
        match sys_stat_mode(path) {
            Ok(mode) => {
                if mode & MODE_KIND_MASK == MODE_KIND_DIR {
                    Ok(())
                } else {
                    Err(RockerErr::PathInvalid)
                }
            },
            Err(_) => create_dir_all(path),
        }
    }

    /// Plans the guard's construction sequence for this configuration.
    pub fn guard_script(&self) -> (r: Vec<GuardCmd>)
        ensures
            r.deep_view() == spec_guard_script(
                self@.pname,
                self@.pkg,
                self@.exec_dir,
                self@.data_dir,
                self@.overlays,
            ),
    {
        crate::guard::guard_script(
            &self.guard_pname,
            &self.app_pkg_path,
            &self.app_exec_dir,
            &self.app_data_dir,
            &self.app_overlay_dirs,
        )
    }

    /// Runs the master side of the construction handshake with a freshly
    /// spawned guard.
    ///
    /// Takes ownership of the guard's process id and stack, then expects
    /// two messages within the bounded wait each: the allocated loop device
    /// id — recorded even when a later step fails, so cleanup can always
    /// find it — and the construction status. A timeout, a failure status
    /// or an unwritable id map kills the guard before the error is
    /// returned, so no half-built guard is left running. On success the
    /// guard's user id, and when given group id, are mapped to root inside
    /// its user namespace, group changes denied first.
    pub fn init(&mut self, launch: GuardLaunch) -> (r: Result<(), RockerErr>)
        requires
            old(self).wf(),
            old(self)@.guard_pid is None,
            launch.pid > 0,
        ensures
            final(self).wf(),
            spec_same_request(*old(self), *final(self)),
            final(self)@.guard_pid == Some(launch.pid as u32),
            final(self)@.has_stack,
            r is Ok ==> final(self)@.loop_id is Some,
            r matches Err(e) ==> (e == RockerErr::Timeout || e == RockerErr::Unknown || (
            e matches RockerErr::Sys(_)) || e == RockerErr::MntPrivate || e
                == RockerErr::SetProcName || e == RockerErr::MntProc || e == RockerErr::MntLoop
                || e == RockerErr::MntOverlay || e == RockerErr::UnshareUser),
    {
        let pid = launch.pid;
        self.guard_pid = Some(pid as u32);
        self.guard_stack = Some(launch.stack);

        // First message: the allocated loop device id, or a failure code.
        let msg = match recv_status(launch.master_fd, HANDSHAKE_TIMEOUT_SECS) {
            Ok(v) => v,
            Err(e) => {
                sys_kill_sigkill(pid);
                return Err(e);
            },
        };
        match interpret_loop_msg(msg) {
            Ok(id) => {
                self.guard_loop_id = Some(id);
            },
            Err(e) => {
                sys_kill_sigkill(pid);
                return Err(e);
            },
        }

        // Second message: the construction status.
        let status = match recv_status(launch.master_fd, HANDSHAKE_TIMEOUT_SECS) {
            Ok(v) => v,
            Err(e) => {
                sys_kill_sigkill(pid);
                return Err(e);
            },
        };
        match interpret_status(status) {
            Ok(()) => {},
            Err(e) => {
                sys_kill_sigkill(pid);
                return Err(e);
            },
        }

        // Map the target user id, and when given the group id, to root
        // inside the guard's new user namespace.
        match self.write_uidmap(pid as u32) {
            Ok(()) => {},
            Err(e) => {
                sys_kill_sigkill(pid);
                return Err(e);
            },
        }
        match self.write_gidmap(pid as u32) {
            Ok(()) => {},
            Err(e) => {
                sys_kill_sigkill(pid);
                return Err(e);
            },
        }
        Ok(())
    }

    /// Writes the guard's single-line user id mapping.
    fn write_uidmap(&self, pid: u32) -> (r: Result<(), RockerErr>)
        ensures
            r matches Err(e) ==> (e matches RockerErr::Sys(_)) || e == RockerErr::Unknown,
    {
        let path = uid_map_path(pid);
        let line = idmap_line(self.uid);
        write_file(&path, &line)
    }

    /// Denies further group changes, then writes the guard's single-line
    /// group id mapping; does nothing when no group id was given.
    fn write_gidmap(&self, pid: u32) -> (r: Result<(), RockerErr>)
        ensures
            self.gid is None ==> r == Ok::<(), RockerErr>(()),
            r matches Err(e) ==> (e matches RockerErr::Sys(_)) || e == RockerErr::Unknown,
    {
        let g = match self.gid {
            Some(g) => g,
            None => {
                return Ok(());
            },
        };
        let sp = setgroups_path(pid);
        let mut deny: Vec<u8> = Vec::new();
        push_all_slice(&mut deny, "deny".as_bytes());
        match write_file(&sp, &deny) {
            Ok(()) => {},
            Err(e) => {
                return Err(e);
            },
        }
        let path = gid_map_path(pid);
        let line = idmap_line(g);
        write_file(&path, &line)
    }

    /// Opens the guard's three namespace handles, in the fixed order mount,
    /// pid, user; the caller owns the returned descriptors. Any failure
    /// kills the guard before the error is returned.
    pub fn get_namespace_fds(&self) -> (r: Result<Vec<i32>, RockerErr>)
        ensures
            r matches Ok(v) ==> v@.len() == 3 && (forall|i: int| 0 <= i < 3 ==> v@[i] >= 0),
            r == Err::<Vec<i32>, RockerErr>(RockerErr::OptionNone) <==> self@.guard_pid is None,
            r matches Err(e) ==> e == RockerErr::OptionNone || e matches RockerErr::Sys(_),
    {
        let pid = match self.guard_pid {
            Some(p) => p,
            None => {
                return Err(RockerErr::OptionNone);
            },
        };
        let mut fds: Vec<i32> = Vec::new();
        let mut i: usize = 0;
        while i < 3
            invariant
                0 <= i <= 3,
                self.guard_pid is Some,
                fds@.len() == i,
                forall|j: int| 0 <= j < i ==> fds@[j] >= 0,
            decreases 3 - i,
        {
            let path = ns_path(pid, i);
            match sys_open_r(&path) {
                Ok(fd) => fds.push(fd),
                Err(e) => {
                    sys_kill_sigkill(pid as i32);
                    return Err(RockerErr::Sys(e));
                },
            }
            i = i + 1;
        }
        Ok(fds)
    }

    /// Hands this configuration to the registry under the guard's process
    /// id. A duplicate id is refused with a duplication error, the existing
    /// entry kept, and this configuration returned alongside the error: its
    /// guard is still running, so its resources must not be dropped here.
    pub fn registe_resource(self, hdr: &mut ResourceRegistry, guard_pid: i32) -> (r: Result<
        (),
        (RockerCfg, RockerErr),
    >)
        ensures
            final(hdr)@ == spec_register(old(hdr)@, guard_pid, self).0,
            r is Ok <==> spec_register(old(hdr)@, guard_pid, self).1 is Ok,
            r matches Err(p) ==> p.0 == self && p.1 == RockerErr::GuardDup && spec_register(
                old(hdr)@,
                guard_pid,
                self,
            ).1 == Err::<(), RockerErr>(RockerErr::GuardDup),
    {
        match hdr.register(guard_pid, self) {
            Ok(()) => Ok(()),
            Err(cfg) => Err((cfg, RockerErr::GuardDup)),
        }
    }

    /// Drops the guard's stack region and names the loop device to unbind;
    /// fails only when no loop device was ever bound.
    pub fn resource_clean(&mut self) -> (r: Result<Vec<u8>, RockerErr>)
        ensures
            spec_same_request(*old(self), *final(self)),
            !final(self)@.has_stack,
            final(self)@.guard_pid == old(self)@.guard_pid,
            final(self)@.loop_id == old(self)@.loop_id,
            r matches Ok(p) ==> (old(self)@.loop_id matches Some(id) && p@ == spec_loop_dev_path(
                id,
            )),
            r matches Err(e) ==> old(self)@.loop_id is None && e == RockerErr::OptionNone,
    {
        self.guard_stack = None;
        match self.guard_loop_id {
            Some(id) => Ok(loop_dev_path(id)),
            None => Err(RockerErr::OptionNone),
        }
    }

    /// Releases everything the sandbox still owns. This never fails: the
    /// stack region is dropped, and the remaining kernel-side cleanup —
    /// unbind the loop device, wait the grace period, then best-effort
    /// destroy it — is returned as a plan whose failures are to be logged,
    /// never propagated.
    pub fn release_resource(&mut self) -> (r: ReleasePlan)
        ensures
            spec_same_request(*old(self), *final(self)),
            !final(self)@.has_stack,
            r.loop_id == old(self)@.loop_id,
            r.grace_secs == RELEASE_GRACE_SECS,
            r.unbind_path matches Some(p) ==> (old(self)@.loop_id matches Some(id) && p@
                == spec_loop_dev_path(id)),
            r.unbind_path is None <==> old(self)@.loop_id is None,
    {
        let loop_id = self.guard_loop_id;
        match self.resource_clean() {
            Ok(p) => ReleasePlan { unbind_path: Some(p), loop_id, grace_secs: RELEASE_GRACE_SECS },
            Err(_) => ReleasePlan { unbind_path: None, loop_id, grace_secs: RELEASE_GRACE_SECS },
        }
    }

    /// The guard's process id, once `init` has spawned it; fetching it
    /// before the guard exists is its own failure kind.
    pub fn get_guard_pid(&self) -> (r: Result<u32, RockerErr>)
        ensures
            self@.guard_pid matches Some(p) ==> r == Ok::<u32, RockerErr>(p),
            self@.guard_pid is None ==> r == Err::<u32, RockerErr>(RockerErr::OptionNone),
    {
        match self.guard_pid {
            Some(p) => Ok(p),
            None => Err(RockerErr::OptionNone),
        }
    }

    /// The guard's 16-byte display identity.
    pub fn get_guard_pname(&self) -> (r: Vec<u8>)
        ensures
            r@ == self@.pname,
    {
        let mut v: Vec<u8> = Vec::new();
        push_all(&mut v, &self.guard_pname);
        v
    }
}

/// The inspection path of namespace `i` of process `pid`, in the fixed
/// order mount, pid, user.
pub open spec fn spec_ns_path(pid: u32, i: int) -> Seq<u8> {
    "/proc/".spec_bytes() + spec_u32_dec(pid) + "/ns/".spec_bytes() + (if i == 0 {
        "mnt".spec_bytes()
    } else if i == 1 {
        "pid".spec_bytes()
    } else {
        "user".spec_bytes()
    })
}

/// Builds the inspection path of namespace `i` of process `pid`.
fn ns_path(pid: u32, i: usize) -> (r: Vec<u8>)
    requires
        i < 3,
    ensures
        r@ == spec_ns_path(pid, i as int),
{
    let mut v: Vec<u8> = Vec::new();
    push_all_slice(&mut v, "/proc/".as_bytes());
    let d = u32_dec(pid);
    push_all(&mut v, &d);
    push_all_slice(&mut v, "/ns/".as_bytes());
    if i == 0 {
        push_all_slice(&mut v, "mnt".as_bytes());
    } else if i == 1 {
        push_all_slice(&mut v, "pid".as_bytes());
    } else {
        push_all_slice(&mut v, "user".as_bytes());
    }
    v
}

/// The bytes of a reply datagram: the guard's process id as a little-endian
/// signed word, then the 16 identity bytes.
pub open spec fn spec_reply(pid_word: u32, name: Seq<u8>) -> Seq<u8> {
    crate::wire::spec_word_le(pid_word) + name
}

/// Encodes a success reply carrying the guard's process id and identity.
pub fn encode_reply(pid: u32, pname: &Vec<u8>) -> (r: Vec<u8>)
    ensures
        r@ == spec_reply(pid, pname@),
{
    let mut v: Vec<u8> = Vec::new();
    push_word_le_pub(&mut v, pid);
    push_all(&mut v, pname);
    v
}

/// Encodes the sentinel failure reply: process id −1 and an all-zero
/// identity, with no namespace handles attached.
pub fn failure_reply() -> (r: Vec<u8>)
    ensures
        r@ == spec_reply(0xFFFF_FFFFu32, Seq::new(16, |i: int| 0u8)),
{
    let mut v: Vec<u8> = Vec::new();
    push_word_le_pub(&mut v, 0xFFFF_FFFFu32);
    let mut i: usize = 0;
    while i < 16
        invariant
            0 <= i <= 16,
            v@ == crate::wire::spec_word_le(0xFFFF_FFFFu32) + Seq::new(i as nat, |j: int| 0u8),
        decreases 16 - i,
    {
        v.push(0);
        proof {
            assert(crate::wire::spec_word_le(0xFFFF_FFFFu32) + Seq::new(
                i as nat + 1,
                |j: int| 0u8,
            ) =~= (crate::wire::spec_word_le(0xFFFF_FFFFu32) + Seq::new(i as nat, |j: int| 0u8)
            ).push(0u8));
        }
        i = i + 1;
    }
    v
}

/// Appends the little-endian bytes of `w`.
fn push_word_le_pub(dst: &mut Vec<u8>, w: u32)
    ensures
        final(dst)@ == old(dst)@ + crate::wire::spec_word_le(w),
{
    dst.push((w % 256) as u8);
    dst.push(((w / 256) % 256) as u8);
    dst.push(((w / 65536) % 256) as u8);
    dst.push(((w / 16777216) % 256) as u8);
    proof {
        assert(dst@ =~= old(dst)@ + crate::wire::spec_word_le(w));
    }
}

} // verus!
