use rocker::master::{GuardLaunch, RockerCfg};
use rocker::registry::{ResourceRegistry, release_exited};
use rocker::RockerErr;

/// A process id no live process plausibly holds.
const GHOST_PID: i32 = 4194301;

/// Drives `cfg` through the handshake with a stand-in guard that reports
/// loop device `loop_id` and then a failed phase.
fn bind_loop_device(cfg: &mut RockerCfg, loop_id: i32) {
    let (master_fd, guard_fd) = nix::sys::socket::socketpair(
        nix::sys::socket::AddressFamily::Unix,
        nix::sys::socket::SockType::Datagram,
        None,
        nix::sys::socket::SockFlag::empty(),
    )
    .unwrap();
    nix::sys::socket::send(
        guard_fd,
        &loop_id.to_le_bytes(),
        nix::sys::socket::MsgFlags::empty(),
    )
    .unwrap();
    nix::sys::socket::send(
        guard_fd,
        &rocker::errors::EUNSHARE_USER.to_le_bytes(),
        nix::sys::socket::MsgFlags::empty(),
    )
    .unwrap();
    let launch = GuardLaunch { pid: GHOST_PID, master_fd, stack: vec![0u8; 64] };
    assert_eq!(cfg.init(launch), Err(RockerErr::UnshareUser));
    let _ = nix::unistd::close(master_fd);
    let _ = nix::unistd::close(guard_fd);
}

fn sample_cfg(counter: u128) -> RockerCfg {
    RockerCfg::new(
        999,
        0,
        None,
        b"/etc/passwd".to_vec(),
        b"/tmp/.rocker_reg_exec".to_vec(),
        b"/tmp/.rocker_reg_data".to_vec(),
        vec![b"/usr".to_vec()],
        counter,
    )
    .unwrap()
}

#[test]
fn duplicate_registration_fails_and_keeps_the_first() {
    let mut reg = ResourceRegistry::new();
    assert_eq!(reg.len(), 0);

    let first = sample_cfg(u128::MAX);
    let first_name = first.get_guard_pname();
    assert!(first.registe_resource(&mut reg, 4242).is_ok());
    assert_eq!(reg.len(), 1);
    assert!(reg.contains(4242));

    let second = sample_cfg(u128::MAX - 1);
    let second_name = second.get_guard_pname();
    let (returned, e) = second.registe_resource(&mut reg, 4242).unwrap_err();
    assert_eq!(e, RockerErr::GuardDup);
    // The refused configuration comes back: its guard still owns what it
    // holds.
    assert_eq!(returned.get_guard_pname(), second_name);
    assert_eq!(reg.len(), 1);

    // The surviving entry is the first one.
    let survivor = reg.remove(4242).unwrap();
    assert_eq!(survivor.get_guard_pname(), first_name);
    assert_eq!(reg.len(), 0);
}

#[test]
fn distinct_pids_register_independently() {
    let mut reg = ResourceRegistry::new();
    assert!(sample_cfg(3).registe_resource(&mut reg, 100).is_ok());
    assert!(sample_cfg(4).registe_resource(&mut reg, 101).is_ok());
    assert_eq!(reg.len(), 2);
    assert!(reg.contains(100));
    assert!(reg.contains(101));
    assert!(!reg.contains(102));
}

#[test]
fn reaping_removes_the_entry_and_plans_cleanup() {
    let mut reg = ResourceRegistry::new();
    let mut cfg = sample_cfg(5);
    bind_loop_device(&mut cfg, 3);
    assert!(cfg.registe_resource(&mut reg, 777).is_ok());

    let plan = release_exited(&mut reg, 777).unwrap();
    assert_eq!(plan.unbind_path, Some(b"/dev/loop3".to_vec()));
    assert_eq!(plan.loop_id, Some(3));
    assert_eq!(plan.grace_secs, 2);
    assert!(!reg.contains(777));
    assert_eq!(reg.len(), 0);

    // A pid with no entry is not an error for the reaper.
    assert!(release_exited(&mut reg, 777).is_none());
}
