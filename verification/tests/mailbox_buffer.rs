use session_bridge::buffer::WriteBuffer;
use session_bridge::mailbox::Mailbox;

#[test]
fn mailbox_keeps_fifo_order() {
    let mut m: Mailbox<u32> = Mailbox::new(4);
    assert!(m.try_send(1));
    assert!(m.try_send(2));
    assert!(m.try_send(3));
    assert_eq!(m.len(), 3);
    assert_eq!(m.recv(), Some(1));
    assert_eq!(m.recv(), Some(2));
    assert_eq!(m.recv(), Some(3));
    assert_eq!(m.recv(), None);
    assert!(m.is_empty());
}

#[test]
fn mailbox_rejects_when_full() {
    let mut m: Mailbox<u8> = Mailbox::new(2);
    assert!(m.try_send(10));
    assert!(m.try_send(11));
    assert!(!m.try_send(12));
    assert_eq!(m.len(), 2);
    assert_eq!(m.recv(), Some(10));
    assert!(m.try_send(13));
    assert_eq!(m.recv(), Some(11));
    assert_eq!(m.recv(), Some(13));
}

#[test]
fn mailbox_send_all_reports_backpressure() {
    let mut m: Mailbox<u8> = Mailbox::new(3);
    assert!(m.try_send(1));
    let delivered = m.send_all(vec![2, 3, 4, 5]);
    assert_eq!(delivered, 2);
    assert_eq!(m.recv(), Some(1));
    assert_eq!(m.recv(), Some(2));
    assert_eq!(m.recv(), Some(3));
    assert_eq!(m.recv(), None);
}

#[test]
fn mailbox_send_all_delivers_all_when_room() {
    let mut m: Mailbox<u8> = Mailbox::new(8);
    let delivered = m.send_all(vec![7, 8, 9]);
    assert_eq!(delivered, 3);
    assert_eq!(m.len(), 3);
}

#[test]
fn write_buffer_appends_and_consumes_from_front() {
    let mut b = WriteBuffer::new();
    assert!(b.is_empty());
    b.append(b"abc".to_vec());
    b.append(b"de".to_vec());
    assert_eq!(b.len(), 5);
    assert_eq!(b.pending(), b"abcde");
    b.consume(2);
    assert_eq!(b.pending(), b"cde");
    b.consume(3);
    assert!(b.is_empty());
}

#[test]
fn write_buffer_consume_zero_changes_nothing() {
    let mut b = WriteBuffer::new();
    b.append(b"xy".to_vec());
    b.consume(0);
    assert_eq!(b.pending(), b"xy");
}
