//! Drives the master side of the construction handshake against a test
//! stand-in for the guard: the test owns the guard's end of the channel and
//! sends what a guard would send.

use nix::sys::socket::{socketpair, send, AddressFamily, MsgFlags, SockFlag, SockType};
use rocker::errors::{EMNT_OVERLAY, EUNSHARE_USER, SUCCESS};
use rocker::master::{GuardLaunch, RockerCfg};
use rocker::RockerErr;

/// A process id no live process plausibly holds, so the kill on the error
/// paths hits nothing.
const GHOST_PID: i32 = 4194301;

fn sample_cfg() -> RockerCfg {
    RockerCfg::new(
        1,
        0,
        None,
        b"/etc/passwd".to_vec(),
        b"/tmp/.rocker_init_exec".to_vec(),
        b"/tmp/.rocker_init_data".to_vec(),
        vec![],
        42,
    )
    .unwrap()
}

fn channel() -> (i32, i32) {
    socketpair(
        AddressFamily::Unix,
        SockType::Datagram,
        None,
        SockFlag::empty(),
    )
    .unwrap()
}

#[test]
fn init_times_out_when_the_guard_is_silent() {
    let (master_fd, guard_fd) = channel();
    let mut cfg = sample_cfg();
    let launch = GuardLaunch { pid: GHOST_PID, master_fd, stack: vec![0u8; 64] };

    let started = std::time::Instant::now();
    let r = cfg.init(launch);
    assert_eq!(r, Err(RockerErr::Timeout));
    assert!(started.elapsed().as_secs() <= 10);
    // The pid and stack are taken over even on failure, so cleanup can
    // always find them.
    assert_eq!(cfg.get_guard_pid(), Ok(GHOST_PID as u32));
    assert!(cfg.has_stack());
    assert_eq!(cfg.get_loop_id(), None);

    let _ = nix::unistd::close(master_fd);
    let _ = nix::unistd::close(guard_fd);
}

#[test]
fn init_maps_a_failed_phase_to_its_kind() {
    let (master_fd, guard_fd) = channel();
    let mut cfg = sample_cfg();
    // The guard reports an overlay failure instead of a loop id.
    send(guard_fd, &EMNT_OVERLAY.to_le_bytes(), MsgFlags::empty()).unwrap();

    let launch = GuardLaunch { pid: GHOST_PID, master_fd, stack: vec![0u8; 64] };
    let r = cfg.init(launch);
    assert_eq!(r, Err(RockerErr::MntOverlay));
    assert_eq!(cfg.get_loop_id(), None);

    let _ = nix::unistd::close(master_fd);
    let _ = nix::unistd::close(guard_fd);
}

#[test]
fn init_records_the_loop_id_before_a_later_failure() {
    let (master_fd, guard_fd) = channel();
    let mut cfg = sample_cfg();
    // The loop device is reported first, independently of what follows, so
    // a partially built sandbox can always be cleaned up.
    send(guard_fd, &5i32.to_le_bytes(), MsgFlags::empty()).unwrap();
    send(guard_fd, &EUNSHARE_USER.to_le_bytes(), MsgFlags::empty()).unwrap();

    let launch = GuardLaunch { pid: GHOST_PID, master_fd, stack: vec![0u8; 64] };
    let r = cfg.init(launch);
    assert_eq!(r, Err(RockerErr::UnshareUser));
    assert_eq!(cfg.get_loop_id(), Some(5));

    let plan = cfg.release_resource();
    assert_eq!(plan.unbind_path, Some(b"/dev/loop5".to_vec()));

    let _ = nix::unistd::close(master_fd);
    let _ = nix::unistd::close(guard_fd);
}

#[test]
fn init_success_proceeds_to_the_id_mapping() {
    let (master_fd, guard_fd) = channel();
    let mut cfg = sample_cfg();
    send(guard_fd, &5i32.to_le_bytes(), MsgFlags::empty()).unwrap();
    send(guard_fd, &SUCCESS.to_le_bytes(), MsgFlags::empty()).unwrap();

    let launch = GuardLaunch { pid: GHOST_PID, master_fd, stack: vec![0u8; 64] };
    let r = cfg.init(launch);
    // The handshake went through; what fails is writing the id map of a
    // process that does not exist.
    assert!(matches!(r, Err(RockerErr::Sys(_))));
    assert_eq!(cfg.get_loop_id(), Some(5));
    assert_eq!(cfg.get_guard_pid(), Ok(GHOST_PID as u32));

    let _ = nix::unistd::close(master_fd);
    let _ = nix::unistd::close(guard_fd);
}
