use session_bridge::errors::BridgeError;
use session_bridge::errors::SetupStage;
use session_bridge::mailbox::Mailbox;
use session_bridge::proto::Command;
use session_bridge::registry::connect_scripted;
use session_bridge::registry::disconnect;
use session_bridge::registry::finish_disconnect;
use session_bridge::registry::send;
use session_bridge::registry::validate_target;
use session_bridge::registry::SessionRegistry;

fn ok_steps() -> Vec<bool> {
    vec![true, true, true, true, true, true]
}

#[test]
fn validation_rejects_bad_inputs_before_any_io() {
    let empty = String::new();
    let host = String::from("host");
    let user = String::from("user");

    let r = validate_target(&empty, 22, &user, &None);
    assert!(matches!(r, Err(BridgeError::Setup(SetupStage::Validate, _))));
    let r = validate_target(&host, 22, &empty, &None);
    assert!(matches!(r, Err(BridgeError::Setup(SetupStage::Validate, _))));
    let r = validate_target(&host, 0, &user, &None);
    assert!(matches!(r, Err(BridgeError::Setup(SetupStage::Validate, _))));
    let r = validate_target(&host, 22, &user, &Some(String::new()));
    assert!(matches!(r, Err(BridgeError::Setup(SetupStage::Validate, _))));
    let r = validate_target(&host, 22, &user, &Some(String::from("s3cret")));
    assert!(r.is_ok());
    let r = validate_target(&host, 22, &user, &None);
    assert!(r.is_ok());
}

#[test]
fn invalid_input_leaves_registry_untouched() {
    let mut reg = SessionRegistry::new();
    let empty = String::new();
    let user = String::from("user");
    let (res, prior) = connect_scripted(&mut reg, &empty, 22, &user, &None, &ok_steps());
    assert!(matches!(res, Err(BridgeError::Setup(SetupStage::Validate, _))));
    assert!(prior.is_none());
    assert!(!reg.is_connected());
}

#[test]
fn setup_failure_names_the_failing_stage_and_registers_nothing() {
    let mut reg = SessionRegistry::new();
    let host = String::from("host");
    let user = String::from("user");

    let steps = vec![true, true, false, true, true, true];
    let (res, _prior) = connect_scripted(&mut reg, &host, 22, &user, &None, &steps);
    match res {
        Err(BridgeError::Setup(stage, _)) => assert_eq!(stage, SetupStage::Auth),
        other => panic!("expected a setup error, got {:?}", other),
    }
    assert!(!reg.is_connected());

    let steps = vec![false, true, true, true, true, true];
    let (res, _prior) = connect_scripted(&mut reg, &host, 22, &user, &None, &steps);
    match res {
        Err(BridgeError::Setup(stage, _)) => assert_eq!(stage, SetupStage::Dial),
        other => panic!("expected a setup error, got {:?}", other),
    }

    let steps = vec![true, true, true, true, true, false];
    let (res, _prior) = connect_scripted(&mut reg, &host, 22, &user, &None, &steps);
    match res {
        Err(BridgeError::Setup(stage, _)) => assert_eq!(stage, SetupStage::ShellStart),
        other => panic!("expected a setup error, got {:?}", other),
    }
}

#[test]
fn second_connect_retires_the_first_session_first() {
    let mut reg = SessionRegistry::new();
    let host = String::from("host");
    let user = String::from("user");

    let (res, prior) = connect_scripted(&mut reg, &host, 22, &user, &None, &ok_steps());
    let first = res.expect("first connect succeeds");
    assert!(prior.is_none());
    assert!(reg.is_connected());

    let (res, prior) = connect_scripted(&mut reg, &host, 22, &user, &None, &ok_steps());
    let second = res.expect("second connect succeeds");
    // The first session was taken out of the registry before the second
    // was stored, and only one session is registered afterward.
    assert_eq!(prior, Some(first));
    assert_ne!(first, second);
    assert!(reg.is_connected());
}

#[test]
fn failed_connect_still_retires_the_prior_session() {
    let mut reg = SessionRegistry::new();
    let host = String::from("host");
    let user = String::from("user");

    let (res, _prior) = connect_scripted(&mut reg, &host, 22, &user, &None, &ok_steps());
    let first = res.expect("first connect succeeds");

    let steps = vec![true, false, true, true, true, true];
    let (res, prior) = connect_scripted(&mut reg, &host, 22, &user, &None, &steps);
    assert!(matches!(res, Err(BridgeError::Setup(SetupStage::Handshake, _))));
    assert_eq!(prior, Some(first));
    // No partial session is registered after the failure.
    assert!(!reg.is_connected());
}

#[test]
fn send_without_session_is_rejected_and_queues_nothing() {
    let reg = SessionRegistry::new();
    let mut queue: Mailbox<Command> = Mailbox::new(4);
    let r = send(&reg, &mut queue, b"data".to_vec());
    assert_eq!(r, Err(BridgeError::NotConnected));
    assert!(queue.is_empty());
}

#[test]
fn send_enqueues_writes_in_order() {
    let mut reg = SessionRegistry::new();
    let host = String::from("host");
    let user = String::from("user");
    let (res, _) = connect_scripted(&mut reg, &host, 22, &user, &None, &ok_steps());
    res.expect("connect succeeds");

    let mut queue: Mailbox<Command> = Mailbox::new(4);
    assert!(send(&reg, &mut queue, b"a".to_vec()).is_ok());
    assert!(send(&reg, &mut queue, b"b".to_vec()).is_ok());
    match queue.recv() {
        Some(Command::Write(d)) => assert_eq!(d, b"a"),
        other => panic!("expected a write, got {:?}", other.is_some()),
    }
    match queue.recv() {
        Some(Command::Write(d)) => assert_eq!(d, b"b"),
        other => panic!("expected a write, got {:?}", other.is_some()),
    }
}

#[test]
fn send_reports_backpressure_when_queue_is_full() {
    let mut reg = SessionRegistry::new();
    let host = String::from("host");
    let user = String::from("user");
    let (res, _) = connect_scripted(&mut reg, &host, 22, &user, &None, &ok_steps());
    res.expect("connect succeeds");

    let mut queue: Mailbox<Command> = Mailbox::new(1);
    assert!(send(&reg, &mut queue, b"a".to_vec()).is_ok());
    let r = send(&reg, &mut queue, b"b".to_vec());
    assert_eq!(r, Err(BridgeError::Busy));
    assert_eq!(queue.len(), 1);
}

#[test]
fn disconnect_twice_succeeds_both_times() {
    let mut reg = SessionRegistry::new();
    let host = String::from("host");
    let user = String::from("user");
    let (res, _) = connect_scripted(&mut reg, &host, 22, &user, &None, &ok_steps());
    let id = res.expect("connect succeeds");

    let mut queue: Mailbox<Command> = Mailbox::new(4);
    let (r1, prior1) = disconnect(&mut reg, &mut queue);
    assert!(r1.is_ok());
    assert_eq!(prior1, Some(id));
    assert!(!reg.is_connected());
    assert!(matches!(queue.recv(), Some(Command::Disconnect)));

    // The second call finds nothing to do and still succeeds.
    let (r2, prior2) = disconnect(&mut reg, &mut queue);
    assert!(r2.is_ok());
    assert!(prior2.is_none());
    assert!(queue.is_empty());
}

#[test]
fn disconnect_without_session_succeeds_and_does_nothing() {
    let mut reg = SessionRegistry::new();
    let mut queue: Mailbox<Command> = Mailbox::new(4);
    let (r, prior) = disconnect(&mut reg, &mut queue);
    assert!(r.is_ok());
    assert!(prior.is_none());
    assert!(queue.is_empty());
}

#[test]
fn abnormal_loop_exit_is_a_distinct_teardown_error() {
    assert!(finish_disconnect(true, String::from("fine")).is_ok());
    let r = finish_disconnect(false, String::from("loop context panicked"));
    match r {
        Err(BridgeError::Teardown(m)) => assert_eq!(m, "loop context panicked"),
        other => panic!("expected a teardown error, got {:?}", other),
    }
}
