use rocker::master::{GuardLaunch, RockerCfg, alloc_guard_stack, encode_reply, failure_reply,
    gid_map_path, idmap_line, loop_dev_path, recv_timed, setgroups_path, uid_map_path, STACK_SIZE};
use rocker::RockerErr;

/// A process id no live process plausibly holds, so the kill on init's
/// error paths hits nothing.
const GHOST_PID: i32 = 4194301;

fn dgram_pair() -> (i32, i32) {
    nix::sys::socket::socketpair(
        nix::sys::socket::AddressFamily::Unix,
        nix::sys::socket::SockType::Datagram,
        None,
        nix::sys::socket::SockFlag::empty(),
    )
    .unwrap()
}

/// Drives `cfg` through the handshake with a stand-in guard that reports
/// loop device `loop_id` and then a failed phase, leaving the
/// configuration with a recorded loop device and stack.
fn bind_loop_device(cfg: &mut RockerCfg, loop_id: i32) {
    let (master_fd, guard_fd) = dgram_pair();
    nix::sys::socket::send(
        guard_fd,
        &loop_id.to_le_bytes(),
        nix::sys::socket::MsgFlags::empty(),
    )
    .unwrap();
    nix::sys::socket::send(
        guard_fd,
        &rocker::errors::EUNSHARE_USER.to_le_bytes(),
        nix::sys::socket::MsgFlags::empty(),
    )
    .unwrap();
    let launch = GuardLaunch { pid: GHOST_PID, master_fd, stack: vec![0u8; 64] };
    assert_eq!(cfg.init(launch), Err(RockerErr::UnshareUser));
    let _ = nix::unistd::close(master_fd);
    let _ = nix::unistd::close(guard_fd);
}

#[test]
fn device_and_map_paths_are_exact() {
    assert_eq!(loop_dev_path(0), b"/dev/loop0".to_vec());
    assert_eq!(loop_dev_path(7), b"/dev/loop7".to_vec());
    assert_eq!(loop_dev_path(4294967295), b"/dev/loop4294967295".to_vec());
    assert_eq!(uid_map_path(4242), b"/proc/4242/uid_map".to_vec());
    assert_eq!(gid_map_path(4242), b"/proc/4242/gid_map".to_vec());
    assert_eq!(setgroups_path(4242), b"/proc/4242/setgroups".to_vec());
    assert_eq!(idmap_line(1000), b"0 1000 1".to_vec());
    assert_eq!(idmap_line(0), b"0 0 1".to_vec());
}

#[test]
fn replies_carry_pid_and_identity() {
    let name: Vec<u8> = (1u8..=16).map(|b| if b == 16 { 0 } else { b }).collect();
    let reply = encode_reply(11, &name);
    let mut expected = 11u32.to_le_bytes().to_vec();
    expected.extend_from_slice(&name);
    assert_eq!(reply, expected);

    let failure = failure_reply();
    let mut expected = (-1i32).to_le_bytes().to_vec();
    expected.extend_from_slice(&[0u8; 16]);
    assert_eq!(failure, expected);
}

#[test]
fn guard_stack_has_its_fixed_size() {
    let stack = alloc_guard_stack();
    assert_eq!(stack.len(), STACK_SIZE);
    assert_eq!(STACK_SIZE, 2 * 1024 * 1024);
}

#[test]
fn recv_timed_reads_what_was_sent() {
    let (a, b) = nix::sys::socket::socketpair(
        nix::sys::socket::AddressFamily::Unix,
        nix::sys::socket::SockType::Datagram,
        None,
        nix::sys::socket::SockFlag::empty(),
    )
    .unwrap();

    nix::sys::socket::send(a, &7i32.to_le_bytes(), nix::sys::socket::MsgFlags::empty()).unwrap();
    let mut buf = vec![0u8; 4];
    let n = recv_timed(b, &mut buf, 2).unwrap();
    assert_eq!(n, 4);
    assert_eq!(buf, 7i32.to_le_bytes().to_vec());

    let _ = nix::unistd::close(a);
    let _ = nix::unistd::close(b);
}

#[test]
fn recv_timed_times_out_on_a_quiet_channel() {
    let (a, b) = nix::sys::socket::socketpair(
        nix::sys::socket::AddressFamily::Unix,
        nix::sys::socket::SockType::Datagram,
        None,
        nix::sys::socket::SockFlag::empty(),
    )
    .unwrap();

    let mut buf = vec![0u8; 4];
    let started = std::time::Instant::now();
    let r = recv_timed(b, &mut buf, 1);
    assert_eq!(r, Err(RockerErr::Timeout));
    assert!(started.elapsed().as_millis() >= 900);

    let _ = nix::unistd::close(a);
    let _ = nix::unistd::close(b);
}

#[test]
fn new_validates_and_builds() {
    let cfg = RockerCfg::new(
        999,
        0,
        None,
        b"/etc/passwd".to_vec(),
        b"/tmp/.rocker_test_exec".to_vec(),
        b"/tmp/.rocker_test_data".to_vec(),
        vec![b"/usr".to_vec()],
        u128::MAX,
    )
    .unwrap();
    assert_eq!(cfg.app_id, 999);
    assert_eq!(cfg.uid, 0);
    assert_eq!(cfg.gid, None);
    assert_eq!(cfg.get_loop_id(), None);
    assert!(!cfg.has_stack());
    let name = cfg.get_guard_pname();
    assert_eq!(name.len(), 16);
    assert_eq!(name[15], 0);
    assert_eq!(cfg.get_guard_pid(), Err(RockerErr::OptionNone));
}

#[test]
fn new_rejects_unknown_user() {
    let r = RockerCfg::new(
        1,
        4294967294,
        None,
        b"/etc/passwd".to_vec(),
        b"/tmp/.rocker_test_exec2".to_vec(),
        b"/tmp/.rocker_test_data2".to_vec(),
        vec![],
        1,
    );
    assert_eq!(r.err(), Some(RockerErr::UidInvalid));
}

#[test]
fn new_rejects_unknown_group() {
    let r = RockerCfg::new(
        1,
        0,
        Some(4294967294),
        b"/etc/passwd".to_vec(),
        b"/tmp/.rocker_test_exec3".to_vec(),
        b"/tmp/.rocker_test_data3".to_vec(),
        vec![],
        1,
    );
    assert_eq!(r.err(), Some(RockerErr::GidInvalid));
}

#[test]
fn new_rejects_bad_paths() {
    // The package must be a regular file, not a directory.
    let r = RockerCfg::new(
        1,
        0,
        None,
        b"/tmp".to_vec(),
        b"/tmp/.rocker_test_exec4".to_vec(),
        b"/tmp/.rocker_test_data4".to_vec(),
        vec![],
        1,
    );
    assert_eq!(r.err(), Some(RockerErr::PathInvalid));

    // The exec directory must not be a regular file.
    let r = RockerCfg::new(
        1,
        0,
        None,
        b"/etc/passwd".to_vec(),
        b"/etc/passwd".to_vec(),
        b"/tmp/.rocker_test_data5".to_vec(),
        vec![],
        1,
    );
    assert_eq!(r.err(), Some(RockerErr::PathInvalid));
}

#[test]
fn new_creates_missing_directories() {
    let exec_dir = b"/tmp/.rocker_test_created/exec/dir".to_vec();
    let data_dir = b"/tmp/.rocker_test_created/data".to_vec();
    let r = RockerCfg::new(
        1,
        0,
        None,
        b"/etc/passwd".to_vec(),
        exec_dir,
        data_dir,
        vec![],
        1,
    );
    assert!(r.is_ok());
    // Created as directories: a second build over them succeeds too.
    let r = RockerCfg::new(
        1,
        0,
        None,
        b"/etc/passwd".to_vec(),
        b"/tmp/.rocker_test_created/exec/dir".to_vec(),
        b"/tmp/.rocker_test_created/data".to_vec(),
        vec![],
        1,
    );
    assert!(r.is_ok());
}

#[test]
fn release_names_the_bound_loop_device() {
    let mut cfg = RockerCfg::new(
        1,
        0,
        None,
        b"/etc/passwd".to_vec(),
        b"/tmp/.rocker_test_exec6".to_vec(),
        b"/tmp/.rocker_test_data6".to_vec(),
        vec![],
        1,
    )
    .unwrap();
    bind_loop_device(&mut cfg, 7);
    assert!(cfg.has_stack());

    let plan = cfg.release_resource();
    assert!(!cfg.has_stack());
    assert_eq!(plan.unbind_path, Some(b"/dev/loop7".to_vec()));
    assert_eq!(plan.loop_id, Some(7));
    assert_eq!(plan.grace_secs, 2);
}

#[test]
fn release_without_loop_device_still_completes() {
    let mut cfg = RockerCfg::new(
        1,
        0,
        None,
        b"/etc/passwd".to_vec(),
        b"/tmp/.rocker_test_exec7".to_vec(),
        b"/tmp/.rocker_test_data7".to_vec(),
        vec![],
        1,
    )
    .unwrap();
    // A guard that reports a failure before any loop device was bound.
    let (master_fd, guard_fd) = dgram_pair();
    nix::sys::socket::send(
        guard_fd,
        &rocker::errors::EMNT_PROC.to_le_bytes(),
        nix::sys::socket::MsgFlags::empty(),
    )
    .unwrap();
    let launch = GuardLaunch { pid: GHOST_PID, master_fd, stack: vec![0u8; 64] };
    assert_eq!(cfg.init(launch), Err(RockerErr::MntProc));
    let _ = nix::unistd::close(master_fd);
    let _ = nix::unistd::close(guard_fd);
    assert!(cfg.has_stack());

    assert_eq!(cfg.resource_clean(), Err(RockerErr::OptionNone));
    assert!(!cfg.has_stack());

    let plan = cfg.release_resource();
    assert_eq!(plan.unbind_path, None);
    assert_eq!(plan.loop_id, None);
    assert_eq!(plan.grace_secs, 2);
}
