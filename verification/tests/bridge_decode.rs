use session_bridge::bridge::EventBridge;
use session_bridge::bridge::Notification;
use session_bridge::proto::CloseReason;
use session_bridge::proto::Event;
use session_bridge::registry::SessionRegistry;

fn fresh_session(reg: &mut SessionRegistry) -> u64 {
    let steps = vec![true, true, true, true, true, true];
    let dest = String::from("host");
    let user = String::from("user");
    let (res, _prior) = session_bridge::registry::connect_scripted(
        reg,
        &dest,
        22,
        &user,
        &None,
        &steps,
    );
    res.expect("setup script succeeds")
}

#[test]
fn data_split_at_multibyte_boundary_keeps_text_whole() {
    let mut reg = SessionRegistry::new();
    let id = fresh_session(&mut reg);
    let mut bridge = EventBridge::new();

    // "\u{20AC}" is E2 82 AC; the read boundary falls inside it.
    let out1 = bridge.process_event(&mut reg, id, Event::Data(vec![0x41, 0xE2, 0x82]));
    assert_eq!(out1.len(), 1);
    match &out1[0] {
        Notification::Output(s) => assert_eq!(s, "A"),
        other => panic!("expected output, got {:?}", other),
    }

    let out2 = bridge.process_event(&mut reg, id, Event::Data(vec![0xAC, 0x42]));
    assert_eq!(out2.len(), 1);
    match &out2[0] {
        Notification::Output(s) => assert_eq!(s, "\u{20AC}B"),
        other => panic!("expected output, got {:?}", other),
    }
}

#[test]
fn data_split_inside_four_byte_character() {
    let mut reg = SessionRegistry::new();
    let id = fresh_session(&mut reg);
    let mut bridge = EventBridge::new();

    // U+1F600 split one byte at a time.
    for b in [0xF0u8, 0x9F, 0x98] {
        let out = bridge.process_event(&mut reg, id, Event::Data(vec![b]));
        assert!(out.is_empty(), "no text before the character completes");
    }
    let out = bridge.process_event(&mut reg, id, Event::Data(vec![0x80]));
    assert_eq!(out.len(), 1);
    match &out[0] {
        Notification::Output(s) => assert_eq!(s, "\u{1F600}"),
        other => panic!("expected output, got {:?}", other),
    }
}

#[test]
fn undecodable_bytes_report_one_decode_fault() {
    let mut reg = SessionRegistry::new();
    let id = fresh_session(&mut reg);
    let mut bridge = EventBridge::new();

    let out = bridge.process_event(&mut reg, id, Event::Data(vec![0x41, 0xFF, 0x42]));
    assert_eq!(out.len(), 2);
    match &out[0] {
        Notification::Output(s) => assert_eq!(s, "A"),
        other => panic!("expected output, got {:?}", other),
    }
    assert!(matches!(out[1], Notification::DecodeFault));

    // The bridge recovers: later input decodes normally.
    let out = bridge.process_event(&mut reg, id, Event::Data(vec![0x43]));
    assert_eq!(out.len(), 1);
    match &out[0] {
        Notification::Output(s) => assert_eq!(s, "C"),
        other => panic!("expected output, got {:?}", other),
    }
}

#[test]
fn overlong_pair_reports_fault_once_complete() {
    let mut reg = SessionRegistry::new();
    let id = fresh_session(&mut reg);
    let mut bridge = EventBridge::new();

    // C0 alone looks like an unfinished two-byte character and is held.
    let out = bridge.process_event(&mut reg, id, Event::Data(vec![0xC0]));
    assert!(out.is_empty());
    // The continuation byte completes an overlong encoding: a fault.
    let out = bridge.process_event(&mut reg, id, Event::Data(vec![0xAF]));
    assert_eq!(out.len(), 1);
    assert!(matches!(out[0], Notification::DecodeFault));
}

#[test]
fn error_event_forwards_message() {
    let mut reg = SessionRegistry::new();
    let id = fresh_session(&mut reg);
    let mut bridge = EventBridge::new();

    let out = bridge.process_event(&mut reg, id, Event::Error(String::from("read went wrong")));
    assert_eq!(out.len(), 1);
    match &out[0] {
        Notification::Fault(m) => assert_eq!(m, "read went wrong"),
        other => panic!("expected fault, got {:?}", other),
    }
}

#[test]
fn closed_event_clears_registry_and_stops_consuming() {
    let mut reg = SessionRegistry::new();
    let id = fresh_session(&mut reg);
    assert!(reg.is_connected());
    let mut bridge = EventBridge::new();

    let out = bridge.process_event(&mut reg, id, Event::Closed(CloseReason::Remote));
    assert_eq!(out.len(), 1);
    match &out[0] {
        Notification::Closed(m) => assert_eq!(m, "connection closed by remote"),
        other => panic!("expected closed, got {:?}", other),
    }
    assert!(!reg.is_connected());

    // After the terminal event the bridge ignores whatever else arrives.
    let out = bridge.process_event(&mut reg, id, Event::Data(vec![0x41]));
    assert!(out.is_empty());
    let out = bridge.process_event(&mut reg, id, Event::Closed(CloseReason::Remote));
    assert!(out.is_empty());
}

#[test]
fn closed_event_reports_unfinished_tail() {
    let mut reg = SessionRegistry::new();
    let id = fresh_session(&mut reg);
    let mut bridge = EventBridge::new();

    let out = bridge.process_event(&mut reg, id, Event::Data(vec![0xE2, 0x82]));
    assert!(out.is_empty());
    let out = bridge.process_event(&mut reg, id, Event::Closed(CloseReason::Local));
    assert_eq!(out.len(), 2);
    assert!(matches!(out[0], Notification::DecodeFault));
    match &out[1] {
        Notification::Closed(m) => assert_eq!(m, "disconnected"),
        other => panic!("expected closed, got {:?}", other),
    }
}

#[test]
fn closed_does_not_clear_a_newer_session() {
    let mut reg = SessionRegistry::new();
    let first = fresh_session(&mut reg);
    // A second connect retires the first and registers a new session.
    let second = fresh_session(&mut reg);
    assert_ne!(first, second);

    // The first session's bridge sees its terminal event late; the newer
    // registration must stay.
    let mut bridge = EventBridge::new();
    let out = bridge.process_event(&mut reg, first, Event::Closed(CloseReason::Remote));
    assert_eq!(out.len(), 1);
    assert!(reg.is_connected());
}
