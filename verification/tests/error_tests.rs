use r_lanscan::error::RLanLibError;

#[test]
fn test_scan_error_display() {
    let err = RLanLibError::Scan { error: "mock error".to_string(), ip: None, port: None };
    println!("{}", err.message());
}

#[test]
fn scan_error_message_shows_ip_and_port() {
    let err = RLanLibError::Scan { error: "mock error".to_string(), ip: None, port: None };
    assert_eq!(err.message(), "scanning error: mock error - ip: None, port: None");
    let err = RLanLibError::Scan { error: "bad".to_string(), ip: Some("x".to_string()), port: None };
    assert_eq!(err.message(), "scanning error: bad - ip: Some(\n    \"x\",\n), port: None");
}

#[test]
fn wire_error_message() {
    assert_eq!(RLanLibError::Wire("down".to_string()).message(), "wire error: down");
    assert_eq!(RLanLibError::ThreadError("t".to_string()).message(), "thread error: t");
}

#[test]
fn panic_messages_become_thread_errors() {
    match RLanLibError::from_panic_message(Some("boom")) {
        RLanLibError::ThreadError(m) => assert_eq!(m, "Thread panicked with: boom"),
        _ => panic!("expected a thread error"),
    }
    match RLanLibError::from_panic_message(None) {
        RLanLibError::ThreadError(m) => assert_eq!(m, "Thread panicked with an unknown type"),
        _ => panic!("expected a thread error"),
    }
}

#[test]
fn notifier_send_error_message() {
    assert_eq!(
        RLanLibError::NotifierSendError.message(),
        "failed to send notification message: SendError { .. }"
    );
}
