use systemd_journal_logger::{PayloadSend, SendAction, SendEvent};

fn too_long() -> i32 {
    rustix::io::Errno::MSGSIZE.raw_os_error()
}

#[test]
fn send_starts_directly() {
    let (send, action) = PayloadSend::new();
    assert_eq!(action, SendAction::SendDirect);
    assert!(!send.is_finished());
}

#[test]
fn small_payload_needs_no_buffer() {
    let (mut send, _) = PayloadSend::new();
    assert_eq!(send.step(SendEvent::Completed(120)), SendAction::Succeed(120));
    assert!(send.is_finished());
}

#[test]
fn oversized_payload_goes_through_sealed_buffer() {
    let (mut send, _) = PayloadSend::new();
    assert_eq!(send.step(SendEvent::Failed(too_long())), SendAction::CreateBuffer);
    assert_eq!(send.step(SendEvent::Completed(0)), SendAction::WriteBuffer);
    assert_eq!(send.step(SendEvent::Completed(512000)), SendAction::SealBuffer);
    assert_eq!(send.step(SendEvent::Completed(0)), SendAction::SendDescriptor);
    assert!(!send.is_finished());
    assert_eq!(send.step(SendEvent::Completed(0)), SendAction::Succeed(0));
    assert!(send.is_finished());
}

#[test]
fn other_send_errors_are_returned() {
    let eacces = rustix::io::Errno::ACCESS.raw_os_error();
    let (mut send, _) = PayloadSend::new();
    assert_eq!(send.step(SendEvent::Failed(eacces)), SendAction::Fail(eacces));
    assert!(send.is_finished());
    let (mut send, _) = PayloadSend::new();
    assert_eq!(send.step(SendEvent::Failed(0)), SendAction::Fail(0));
}

#[test]
fn failed_seal_sends_no_descriptor() {
    let (mut send, _) = PayloadSend::new();
    assert_eq!(send.step(SendEvent::Failed(too_long())), SendAction::CreateBuffer);
    assert_eq!(send.step(SendEvent::Completed(0)), SendAction::WriteBuffer);
    assert_eq!(send.step(SendEvent::Completed(10)), SendAction::SealBuffer);
    let ebusy = rustix::io::Errno::BUSY.raw_os_error();
    assert_eq!(send.step(SendEvent::Failed(ebusy)), SendAction::Fail(ebusy));
    assert!(send.is_finished());
}

#[test]
fn oversize_error_after_fallback_is_fatal() {
    let (mut send, _) = PayloadSend::new();
    assert_eq!(send.step(SendEvent::Failed(too_long())), SendAction::CreateBuffer);
    assert_eq!(
        send.step(SendEvent::Failed(too_long())),
        SendAction::Fail(too_long())
    );
}

#[test]
fn failed_buffer_creation_is_fatal() {
    let enomem = rustix::io::Errno::NOMEM.raw_os_error();
    let (mut send, _) = PayloadSend::new();
    assert_eq!(send.step(SendEvent::Failed(too_long())), SendAction::CreateBuffer);
    assert_eq!(send.step(SendEvent::Failed(enomem)), SendAction::Fail(enomem));
}
