use rocker::errors::{EMAKE_PRIVATE, EMNT_LOOP, EMNT_OVERLAY, EMNT_PROC, ESET_PROCNAME,
    EUNSHARE_USER, SUCCESS, RockerErr, interpret_loop_msg, interpret_status, status_err};

#[test]
fn each_phase_code_maps_to_its_kind() {
    assert_eq!(status_err(EMAKE_PRIVATE), RockerErr::MntPrivate);
    assert_eq!(status_err(ESET_PROCNAME), RockerErr::SetProcName);
    assert_eq!(status_err(EMNT_PROC), RockerErr::MntProc);
    assert_eq!(status_err(EMNT_LOOP), RockerErr::MntLoop);
    assert_eq!(status_err(EMNT_OVERLAY), RockerErr::MntOverlay);
    assert_eq!(status_err(EUNSHARE_USER), RockerErr::UnshareUser);
    assert_eq!(status_err(-77), RockerErr::Unknown);
    assert_eq!(status_err(12345), RockerErr::Unknown);
}

#[test]
fn loop_id_message_is_id_or_failure() {
    assert_eq!(interpret_loop_msg(0), Ok(0));
    assert_eq!(interpret_loop_msg(7), Ok(7));
    assert_eq!(interpret_loop_msg(i32::MAX), Ok(i32::MAX as u32));
    assert_eq!(interpret_loop_msg(EMNT_LOOP), Err(RockerErr::MntLoop));
    assert_eq!(interpret_loop_msg(EMAKE_PRIVATE), Err(RockerErr::MntPrivate));
    // Even a premature success code is not a loop device id.
    assert_eq!(interpret_loop_msg(SUCCESS), Err(RockerErr::Unknown));
}

#[test]
fn status_message_is_success_or_failure() {
    assert_eq!(interpret_status(SUCCESS), Ok(()));
    assert_eq!(interpret_status(EMNT_OVERLAY), Err(RockerErr::MntOverlay));
    assert_eq!(interpret_status(EUNSHARE_USER), Err(RockerErr::UnshareUser));
    assert_eq!(interpret_status(0), Err(RockerErr::Unknown));
    assert_eq!(interpret_status(1), Err(RockerErr::Unknown));
}
