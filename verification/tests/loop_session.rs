use session_bridge::bridge::EventBridge;
use session_bridge::bridge::Notification;
use session_bridge::ioloop::run_loop;
use session_bridge::ioloop::LoopState;
use session_bridge::mailbox::Mailbox;
use session_bridge::proto::CloseReason;
use session_bridge::proto::Command;
use session_bridge::proto::Event;
use session_bridge::registry::SessionRegistry;
use session_bridge::transport::ReadOutcome;
use session_bridge::transport::ScriptedTransport;
use session_bridge::transport::SyncOutcome;
use session_bridge::transport::WriteStep;

fn closed_events(log: &[Event]) -> usize {
    log.iter().filter(|e| matches!(e, Event::Closed(_))).count()
}

#[test]
fn writes_arrive_in_send_order() {
    let mut st = LoopState::new();
    let mut queue: Mailbox<Command> = Mailbox::new(8);
    assert!(queue.try_send(Command::Write(b"a".to_vec())));
    assert!(queue.try_send(Command::Write(b"b".to_vec())));
    assert!(queue.try_send(Command::Write(b"c".to_vec())));
    let mut tr = ScriptedTransport::new(Vec::new(), vec![WriteStep::AcceptUpTo(100)], Vec::new());
    let mut log: Vec<Event> = Vec::new();

    run_loop(&mut st, &mut queue, false, &mut tr, &mut log, 10);

    assert_eq!(tr.taken_so_far(), b"abc");
    assert_eq!(closed_events(&log), 0);
    assert!(log.is_empty());
}

#[test]
fn partial_writes_never_reorder_bytes() {
    let mut st = LoopState::new();
    let mut queue: Mailbox<Command> = Mailbox::new(8);
    assert!(queue.try_send(Command::Write(b"abc".to_vec())));
    let writes = vec![
        WriteStep::AcceptUpTo(1),
        WriteStep::WouldBlock,
        WriteStep::AcceptUpTo(1),
        WriteStep::AcceptUpTo(5),
    ];
    let mut tr = ScriptedTransport::new(Vec::new(), writes, Vec::new());
    let mut log: Vec<Event> = Vec::new();

    run_loop(&mut st, &mut queue, false, &mut tr, &mut log, 30);

    assert_eq!(tr.taken_so_far(), b"abc");
    assert!(log.is_empty());
}

#[test]
fn remote_end_of_stream_closes_exactly_once() {
    let mut st = LoopState::new();
    let mut queue: Mailbox<Command> = Mailbox::new(8);
    let reads = vec![ReadOutcome::Data(b"bye".to_vec()), ReadOutcome::EndOfStream];
    let mut tr = ScriptedTransport::new(reads, Vec::new(), Vec::new());
    let mut log: Vec<Event> = Vec::new();

    run_loop(&mut st, &mut queue, false, &mut tr, &mut log, 50);

    assert_eq!(log.len(), 2);
    assert!(matches!(&log[0], Event::Data(d) if d == b"bye"));
    assert!(matches!(&log[1], Event::Closed(CloseReason::Remote)));
    assert_eq!(closed_events(&log), 1);
}

#[test]
fn zero_byte_read_without_eof_closes_defensively() {
    let mut st = LoopState::new();
    let mut queue: Mailbox<Command> = Mailbox::new(8);
    let reads = vec![ReadOutcome::Data(Vec::new())];
    let mut tr = ScriptedTransport::new(reads, Vec::new(), Vec::new());
    let mut log: Vec<Event> = Vec::new();

    run_loop(&mut st, &mut queue, false, &mut tr, &mut log, 50);

    assert_eq!(log.len(), 1);
    assert!(matches!(&log[0], Event::Closed(CloseReason::Unexpected)));
}

#[test]
fn would_block_everywhere_emits_nothing_and_stays_alive() {
    let mut st = LoopState::new();
    let mut queue: Mailbox<Command> = Mailbox::new(8);
    // Exhausted scripts answer would-block forever.
    let mut tr = ScriptedTransport::new(Vec::new(), Vec::new(), Vec::new());
    let mut log: Vec<Event> = Vec::new();

    run_loop(&mut st, &mut queue, false, &mut tr, &mut log, 200);

    assert!(log.is_empty());
    assert_eq!(closed_events(&log), 0);
    // The loop ran its full budget and is still polling: another run
    // still works and still emits nothing.
    run_loop(&mut st, &mut queue, false, &mut tr, &mut log, 200);
    assert!(log.is_empty());
}

#[test]
fn disconnect_command_stops_loop_with_one_closed() {
    let mut st = LoopState::new();
    let mut queue: Mailbox<Command> = Mailbox::new(8);
    assert!(queue.try_send(Command::Disconnect));
    let mut tr = ScriptedTransport::new(Vec::new(), Vec::new(), Vec::new());
    let mut log: Vec<Event> = Vec::new();

    run_loop(&mut st, &mut queue, false, &mut tr, &mut log, 50);

    assert_eq!(log.len(), 1);
    assert!(matches!(&log[0], Event::Closed(CloseReason::Local)));
}

#[test]
fn dropped_senders_are_an_implicit_disconnect() {
    let mut st = LoopState::new();
    let mut queue: Mailbox<Command> = Mailbox::new(8);
    let mut tr = ScriptedTransport::new(Vec::new(), Vec::new(), Vec::new());
    let mut log: Vec<Event> = Vec::new();

    run_loop(&mut st, &mut queue, true, &mut tr, &mut log, 50);

    assert_eq!(closed_events(&log), 1);
    assert!(matches!(&log[0], Event::Closed(CloseReason::Local)));
}

#[test]
fn write_failure_emits_error_then_closes() {
    let mut st = LoopState::new();
    let mut queue: Mailbox<Command> = Mailbox::new(8);
    assert!(queue.try_send(Command::Write(b"x".to_vec())));
    let writes = vec![WriteStep::Failed(String::from("pipe broke"))];
    let mut tr = ScriptedTransport::new(Vec::new(), writes, Vec::new());
    let mut log: Vec<Event> = Vec::new();

    run_loop(&mut st, &mut queue, false, &mut tr, &mut log, 50);

    assert_eq!(log.len(), 2);
    assert!(matches!(&log[0], Event::Error(m) if m == "pipe broke"));
    assert!(matches!(&log[1], Event::Closed(CloseReason::Local)));
    assert_eq!(tr.taken_so_far(), b"");
}

#[test]
fn sync_failure_is_reported_but_not_fatal() {
    let mut st = LoopState::new();
    let mut queue: Mailbox<Command> = Mailbox::new(8);
    assert!(queue.try_send(Command::Write(b"ok".to_vec())));
    let writes = vec![WriteStep::AcceptUpTo(10)];
    let syncs = vec![SyncOutcome::Failed(String::from("sync hiccup"))];
    let mut tr = ScriptedTransport::new(Vec::new(), writes, syncs);
    let mut log: Vec<Event> = Vec::new();

    run_loop(&mut st, &mut queue, false, &mut tr, &mut log, 50);

    assert_eq!(tr.taken_so_far(), b"ok");
    assert_eq!(log.len(), 1);
    assert!(matches!(&log[0], Event::Error(m) if m == "sync hiccup"));
    assert_eq!(closed_events(&log), 0);
}

#[test]
fn whole_session_reaches_bridge_with_one_closed_notification() {
    // The loop produces the events; the bridge turns them into the
    // consumer's notifications and retires the registry entry.
    let mut reg = SessionRegistry::new();
    let steps = vec![true, true, true, true, true, true];
    let dest = String::from("host");
    let user = String::from("user");
    let (res, _prior) = session_bridge::registry::connect_scripted(
        &mut reg,
        &dest,
        22,
        &user,
        &None,
        &steps,
    );
    let id = res.expect("connect succeeds");

    let mut st = LoopState::new();
    let mut queue: Mailbox<Command> = Mailbox::new(8);
    let reads = vec![ReadOutcome::Data(b"hi".to_vec()), ReadOutcome::EndOfStream];
    let mut tr = ScriptedTransport::new(reads, Vec::new(), Vec::new());
    let mut log: Vec<Event> = Vec::new();
    run_loop(&mut st, &mut queue, false, &mut tr, &mut log, 50);

    let mut bridge = EventBridge::new();
    let notes = session_bridge::bridge::pump_events(&mut bridge, &mut reg, id, log);

    let closed: Vec<&Notification> = notes
        .iter()
        .filter(|n| matches!(n, Notification::Closed(_)))
        .collect();
    assert_eq!(closed.len(), 1);
    assert!(!reg.is_connected());
    match &notes[0] {
        Notification::Output(s) => assert_eq!(s, "hi"),
        other => panic!("expected output first, got {:?}", other),
    }
}

#[test]
fn a_stream_without_a_terminal_event_closes_nothing() {
    let mut reg = SessionRegistry::new();
    let mut bridge = EventBridge::new();
    let events = vec![Event::Data(b"a".to_vec()), Event::Error(String::from("hiccup"))];
    let notes = session_bridge::bridge::pump_events(&mut bridge, &mut reg, 0, events);
    assert_eq!(notes.len(), 2);
    assert!(matches!(&notes[0], Notification::Output(s) if s == "a"));
    assert!(matches!(&notes[1], Notification::Fault(m) if m == "hiccup"));
    assert!(!notes.iter().any(|n| matches!(n, Notification::Closed(_))));
}

#[test]
fn events_after_the_terminal_one_are_ignored() {
    let mut reg = SessionRegistry::new();
    let mut bridge = EventBridge::new();
    let events = vec![
        Event::Data(b"a".to_vec()),
        Event::Closed(CloseReason::Remote),
        Event::Data(b"b".to_vec()),
        Event::Error(String::from("late")),
        Event::Closed(CloseReason::Local),
    ];
    let notes = session_bridge::bridge::pump_events(&mut bridge, &mut reg, 0, events);
    // One output, then exactly one closure; the rest was ignored.
    assert_eq!(notes.len(), 2);
    assert!(matches!(&notes[0], Notification::Output(s) if s == "a"));
    assert!(matches!(&notes[1], Notification::Closed(_)));
}
