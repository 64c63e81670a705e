use rocker::guard::{GuardCmd, alone_check, fail_code, guard_name_bytes, guard_script};
use rocker::errors::{EMAKE_PRIVATE, EMNT_LOOP, EMNT_OVERLAY, EMNT_PROC, ESET_PROCNAME,
    EUNSHARE_USER, SUCCESS};

#[test]
fn name_encodes_base_255_digits_offset_by_one() {
    // Counter 0: every digit 0, every byte 1.
    let name = guard_name_bytes(0);
    let mut expected = vec![1u8; 15];
    expected.push(0);
    assert_eq!(name, expected);

    // Counter 1: lowest digit 1, so lowest byte 2.
    let name = guard_name_bytes(1);
    let mut expected = vec![2u8];
    expected.extend_from_slice(&[1u8; 14]);
    expected.push(0);
    assert_eq!(name, expected);

    // Counter 254: the largest single digit gives byte 255.
    let name = guard_name_bytes(254);
    let mut expected = vec![255u8];
    expected.extend_from_slice(&[1u8; 14]);
    expected.push(0);
    assert_eq!(name, expected);

    // Counter 255: one carry into the second digit.
    let name = guard_name_bytes(255);
    let mut expected = vec![1u8, 2u8];
    expected.extend_from_slice(&[1u8; 13]);
    expected.push(0);
    assert_eq!(name, expected);
}

#[test]
fn adjacent_counters_get_distinct_names() {
    // Adjacent draws of a descending 64-bit counter, including the pairs
    // whose little-endian bytes differ only in a zero byte.
    let pairs: [(u128, u128); 4] = [
        (0xffff_ffff_ffff_ff00, 0xffff_ffff_ffff_ff01),
        (0xff00, 0xff01),
        (u64::MAX as u128, u64::MAX as u128 - 1),
        (0, 1),
    ];
    for (a, b) in pairs {
        assert_ne!(guard_name_bytes(a), guard_name_bytes(b));
    }
}

#[test]
fn name_is_always_terminated() {
    for c in [0u128, 1, 255, 256, u128::MAX, u128::MAX - 77] {
        let name = guard_name_bytes(c);
        assert_eq!(name.len(), 16);
        assert_eq!(name[15], 0);
        assert!(name[..15].iter().all(|&b| b != 0));
    }
}

#[test]
fn script_follows_the_fixed_order() {
    let name = guard_name_bytes(u128::MAX);
    let pkg = b"/tmp/.xxxxxx_pkg".to_vec();
    let exec_dir = b"/tmp/.xxxxxx_exec".to_vec();
    let data_dir = b"/tmp/.xxxxxx_data".to_vec();
    let overlays = vec![b"/usr".to_vec(), b"/etc".to_vec(), b"/var".to_vec()];

    let script = guard_script(&name, &pkg, &exec_dir, &data_dir, &overlays);
    assert_eq!(script.len(), 6 + 3 * overlays.len());
    assert_eq!(script[0], GuardCmd::MakePrivate);
    assert_eq!(script[1], GuardCmd::SetName { name: name.clone() });
    assert_eq!(script[2], GuardCmd::MountProc);
    assert_eq!(
        script[3],
        GuardCmd::MountLoop { pkg: pkg.clone(), exec_dir: exec_dir.clone() },
    );
    assert_eq!(
        script[4],
        GuardCmd::MakeDir { path: b"/tmp/.xxxxxx_data/.upperdir____/usr".to_vec() },
    );
    assert_eq!(
        script[5],
        GuardCmd::MakeDir { path: b"/tmp/.xxxxxx_data/.workdir____/usr".to_vec() },
    );
    assert_eq!(
        script[6],
        GuardCmd::MountOverlay {
            target: b"/usr".to_vec(),
            mount_data: b"lowerdir=/usr,upperdir=/tmp/.xxxxxx_data/.upperdir____/usr,workdir=/tmp/.xxxxxx_data/.workdir____/usr".to_vec(),
        },
    );
    assert_eq!(
        script[10],
        GuardCmd::MakeDir { path: b"/tmp/.xxxxxx_data/.upperdir____/var".to_vec() },
    );
    assert_eq!(script[script.len() - 2], GuardCmd::UnshareUser);
    assert_eq!(script[script.len() - 1], GuardCmd::ReportSuccess);
    // The user namespace is entered after every mount step.
    for c in &script[..script.len() - 2] {
        assert!(*c != GuardCmd::UnshareUser && *c != GuardCmd::ReportSuccess);
    }
}

#[test]
fn script_without_overlays_mounts_no_overlay() {
    let name = guard_name_bytes(1);
    let script = guard_script(
        &name,
        &b"/p".to_vec(),
        &b"/e".to_vec(),
        &b"/d".to_vec(),
        &vec![],
    );
    assert_eq!(script.len(), 6);
    for c in &script {
        assert!(!matches!(c, GuardCmd::MakeDir { .. }));
        assert!(!matches!(c, GuardCmd::MountOverlay { .. }));
    }
}

#[test]
fn every_step_has_its_failure_code() {
    assert_eq!(fail_code(&GuardCmd::MakePrivate), EMAKE_PRIVATE);
    assert_eq!(fail_code(&GuardCmd::SetName { name: vec![] }), ESET_PROCNAME);
    assert_eq!(fail_code(&GuardCmd::MountProc), EMNT_PROC);
    assert_eq!(
        fail_code(&GuardCmd::MountLoop { pkg: vec![], exec_dir: vec![] }),
        EMNT_LOOP,
    );
    assert_eq!(fail_code(&GuardCmd::MakeDir { path: vec![] }), EMNT_OVERLAY);
    assert_eq!(
        fail_code(&GuardCmd::MountOverlay { target: vec![], mount_data: vec![] }),
        EMNT_OVERLAY,
    );
    assert_eq!(fail_code(&GuardCmd::UnshareUser), EUNSHARE_USER);
    assert_eq!(fail_code(&GuardCmd::ReportSuccess), SUCCESS);
}

#[test]
fn alone_check_sees_only_pid_one() {
    let names = vec![b"1".to_vec(), b"self".to_vec(), b"uptime".to_vec()];
    assert!(alone_check(&names));

    let names = vec![b"1".to_vec(), b"234".to_vec()];
    assert!(!alone_check(&names));

    // A name too large for a process id is not a process entry.
    let names = vec![b"1".to_vec(), b"99999999999999999999".to_vec()];
    assert!(alone_check(&names));

    let names: Vec<Vec<u8>> = vec![];
    assert!(alone_check(&names));
}
