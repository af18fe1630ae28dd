use transit::instruction::Operation;
use transit::session::Role;
use transit::session::Session;
use transit::session::SessionState;
use transit::session::bytes_equal;
use transit::session::evaluate_connect;

#[test]
fn handshake_with_password_success() {
    // Receiver side: the configured credential matches the payload.
    let credential = Some(b"open sesame".to_vec());
    let payload = b"open sesame".to_vec();
    let answer = evaluate_connect(Operation::ConnWithPass, &payload, &credential);
    assert_eq!(answer, Operation::ConnSuccess);

    // Sender side: the success answer establishes the session.
    let mut s = Session::new(Role::Sender);
    let ins = s.connect(0, true, payload.len() as u16);
    assert_eq!(ins.operation, Operation::ConnWithPass);
    assert_eq!(ins.length, 11);
    assert_eq!(s.state, SessionState::Handshaking);
    s.on_handshake_reply(answer);
    assert_eq!(s.state, SessionState::Established);
    assert!(s.may_begin_transfer());
}

#[test]
fn handshake_wrong_password_refused() {
    let credential = Some(b"open sesame".to_vec());
    let payload = b"open sesam".to_vec();
    let answer = evaluate_connect(Operation::ConnWithPass, &payload, &credential);
    assert_eq!(answer, Operation::ConnRefuse);

    let mut s = Session::new(Role::Sender);
    s.connect(0, true, payload.len() as u16);
    s.on_handshake_reply(answer);
    assert_eq!(s.state, SessionState::Refused);
    // No transfer may be started afterward: the state is terminal.
    assert!(!s.may_begin_transfer());
    s.transport_failure();
    assert_eq!(s.state, SessionState::Refused);
    s.protocol_violation();
    assert_eq!(s.state, SessionState::Refused);
    assert!(!s.may_begin_transfer());
}

#[test]
fn connect_without_pass_needs_no_credential() {
    let empty = Vec::new();
    assert_eq!(
        evaluate_connect(Operation::ConnWithoutPass, &empty, &None),
        Operation::ConnSuccess
    );
    // A receiver with a configured credential refuses a passwordless connect.
    let credential = Some(b"secret".to_vec());
    assert_eq!(
        evaluate_connect(Operation::ConnWithoutPass, &empty, &credential),
        Operation::ConnRefuse
    );
}

#[test]
fn conn_fail_is_failed() {
    let mut s = Session::new(Role::Sender);
    s.connect(0, false, 0);
    s.on_handshake_reply(Operation::ConnFail);
    assert_eq!(s.state, SessionState::Failed);
    assert!(!s.may_begin_transfer());
}

#[test]
fn clean_teardown() {
    let mut s = Session::new(Role::Receiver);
    s.on_connect_request();
    s.on_handshake_reply(Operation::ConnSuccess);
    assert_eq!(s.state, SessionState::Established);
    s.end_conn();
    assert_eq!(s.state, SessionState::Closing);
    s.stream_shutdown();
    assert_eq!(s.state, SessionState::Closed);
}

#[test]
fn fresh_ids_are_monotone() {
    let mut s = Session::new(Role::Sender);
    assert_eq!(s.fresh_id(), 0);
    assert_eq!(s.fresh_id(), 1);
    assert_eq!(s.fresh_id(), 2);
}

#[test]
fn bytes_equal_compares_contents() {
    assert!(bytes_equal(&b"abc".to_vec(), &b"abc".to_vec()));
    assert!(!bytes_equal(&b"abc".to_vec(), &b"abd".to_vec()));
    assert!(!bytes_equal(&b"abc".to_vec(), &b"ab".to_vec()));
    assert!(bytes_equal(&Vec::new(), &Vec::new()));
}
