use heapless::pool::Node;
use tp_led_matrix::image::{Color, Image};
use tp_led_matrix::ingest::{Cursor, Receiver, PAYLOAD, SENTINEL};
use tp_led_matrix::mailbox::{Mailbox, Source};
use tp_led_matrix::pool::FramePool;

fn pool_of(slots: usize) -> FramePool {
    let bytes = slots * core::mem::size_of::<Node<Image>>() + core::mem::align_of::<Node<Image>>() - 1;
    FramePool::new(Box::leak(vec![0u8; bytes].into_boxed_slice()))
}

struct Line {
    pool: FramePool,
    mailbox: Mailbox,
    receiver: Receiver,
    completed: usize,
}

fn line_with(slots: usize) -> Line {
    let mut pool = pool_of(slots);
    let receiver = Receiver::new(pool.allocate().unwrap());
    Line { pool, mailbox: Mailbox::new(), receiver, completed: 0 }
}

fn send(line: &mut Line, bytes: &[u8]) {
    for b in bytes {
        if line.receiver.receive_byte(*b, false, &mut line.mailbox, &mut line.pool) {
            line.completed += 1;
        }
    }
}

fn payload(seed: usize) -> Vec<u8> {
    (0..192).map(|i| ((i * 13 + seed) % 255) as u8).collect()
}

fn pending_bytes(line: &Line) -> Option<Vec<u8>> {
    line.mailbox.peek().map(|(frame, _)| frame.image().to_bytes().to_vec())
}

#[test]
fn protocol_constants() {
    assert_eq!(SENTINEL, 0xFF);
    assert_eq!(PAYLOAD, 192);
}

#[test]
fn new_receiver_fills_from_offset_zero() {
    let line = line_with(2);
    assert_eq!(line.receiver.cursor(), Cursor::Filling(0));
    assert_eq!(line.receiver.frame().image().to_bytes(), [0u8; 192]);
}

#[test]
fn sentinel_then_payload_publishes_the_payload() {
    let mut line = line_with(3);
    send(&mut line, &[SENTINEL]);
    assert_eq!(line.receiver.cursor(), Cursor::Filling(0));
    let data = payload(1);
    send(&mut line, &data[..191]);
    assert_eq!(line.receiver.cursor(), Cursor::Filling(191));
    assert!(!line.mailbox.is_pending());
    assert_eq!(line.completed, 0);
    send(&mut line, &data[191..]);
    assert_eq!(line.completed, 1);
    assert_eq!(line.receiver.cursor(), Cursor::Resync);
    assert_eq!(pending_bytes(&line), Some(data.clone()));
    assert_eq!(line.mailbox.peek().unwrap().1, Source::Ingest);
    let frame = line.mailbox.take().unwrap();
    assert_eq!(*frame.image().pixel(0, 0), Color::new(data[0], data[1], data[2]));
    assert_eq!(*frame.image().pixel(7, 7), Color::new(data[189], data[190], data[191]));
}

#[test]
fn published_frame_is_independent_of_earlier_sentinels() {
    let data = payload(2);
    for sentinels in [1usize, 2, 5] {
        let mut line = line_with(3);
        send(&mut line, &vec![SENTINEL; sentinels]);
        send(&mut line, &data);
        assert_eq!(line.completed, 1);
        assert_eq!(pending_bytes(&line), Some(data.clone()));
    }
}

#[test]
fn published_frame_is_independent_of_earlier_garbage() {
    let data = payload(3);
    let mut line = line_with(3);
    send(&mut line, &[1, 2, 3, 4, 5, 6, 7]);
    send(&mut line, &[SENTINEL]);
    send(&mut line, &data);
    assert_eq!(line.completed, 1);
    assert_eq!(pending_bytes(&line), Some(data));
}

#[test]
fn sentinel_mid_frame_restarts_framing() {
    let mut line = line_with(3);
    send(&mut line, &[SENTINEL]);
    send(&mut line, &[0xAA; 100]);
    assert_eq!(line.receiver.cursor(), Cursor::Filling(100));
    send(&mut line, &[SENTINEL]);
    assert_eq!(line.receiver.cursor(), Cursor::Filling(0));
    let data: Vec<u8> = (0..192).map(|i| (i % 100) as u8).collect();
    assert!(!data.contains(&0xAA));
    send(&mut line, &data);
    assert_eq!(line.completed, 1);
    let published = pending_bytes(&line).unwrap();
    assert_eq!(published, data);
    assert!(!published.contains(&0xAA));
}

#[test]
fn sentinel_at_every_cursor_position_restarts() {
    let data = payload(5);
    for k in [1usize, 2, 95, 190, 191] {
        let mut line = line_with(3);
        send(&mut line, &[SENTINEL]);
        send(&mut line, &vec![0xEE; k]);
        send(&mut line, &[SENTINEL]);
        send(&mut line, &data);
        assert_eq!(line.completed, 1, "k = {}", k);
        assert_eq!(pending_bytes(&line), Some(data.clone()), "k = {}", k);
    }
}

#[test]
fn line_error_discards_only_that_byte() {
    let mut line = line_with(3);
    let data = payload(6);
    send(&mut line, &[SENTINEL]);
    send(&mut line, &data[..50]);
    assert!(!line.receiver.receive_byte(0x42, true, &mut line.mailbox, &mut line.pool));
    assert!(!line.receiver.receive_byte(SENTINEL, true, &mut line.mailbox, &mut line.pool));
    assert_eq!(line.receiver.cursor(), Cursor::Filling(50));
    send(&mut line, &data[50..]);
    assert_eq!(line.completed, 1);
    assert_eq!(pending_bytes(&line), Some(data));
}

#[test]
fn bytes_after_completion_are_ignored_until_sentinel() {
    let mut line = line_with(3);
    let data = payload(7);
    send(&mut line, &[SENTINEL]);
    send(&mut line, &data);
    assert_eq!(line.receiver.cursor(), Cursor::Resync);
    send(&mut line, &[1, 2, 3, 4]);
    assert_eq!(line.receiver.cursor(), Cursor::Resync);
    assert_eq!(line.receiver.frame().image().to_bytes(), [0u8; 192]);
    assert_eq!(pending_bytes(&line), Some(data));
    assert_eq!(line.completed, 1);
    send(&mut line, &[SENTINEL, 9]);
    assert_eq!(line.receiver.cursor(), Cursor::Filling(1));
    assert_eq!(line.receiver.frame().image().byte(0), 9);
}

#[test]
fn receiver_without_sentinel_accepts_payload_at_once() {
    let mut line = line_with(3);
    let data = payload(8);
    send(&mut line, &data);
    assert_eq!(line.completed, 1);
    assert_eq!(pending_bytes(&line), Some(data));
}

#[test]
fn payload_cannot_carry_the_sentinel() {
    // A fully red frame would need 0xFF in every red channel; each of them
    // restarts framing instead, so no frame is ever completed.
    let mut line = line_with(3);
    send(&mut line, &[SENTINEL]);
    for _ in 0..64 {
        send(&mut line, &[0xFF, 0x00, 0x00]);
    }
    assert_eq!(line.completed, 0);
    assert!(!line.mailbox.is_pending());
    assert_eq!(line.receiver.cursor(), Cursor::Filling(2));
}

#[test]
fn exhausted_pool_drops_the_completed_frame() {
    // One slot for the receiver, one for a display, one in the mailbox.
    let mut line = line_with(3);
    let _display = line.pool.allocate().unwrap();
    let first = payload(9);
    let second = payload(10);
    send(&mut line, &[SENTINEL]);
    send(&mut line, &first);
    assert_eq!(line.completed, 1);
    assert_eq!(pending_bytes(&line), Some(first.clone()));
    send(&mut line, &[SENTINEL]);
    send(&mut line, &second);
    // The frame was completed, but with no free slot it is not published.
    assert_eq!(line.completed, 2);
    assert_eq!(line.receiver.cursor(), Cursor::Resync);
    assert_eq!(pending_bytes(&line), Some(first));
    assert_eq!(line.receiver.frame().image().to_bytes().to_vec(), second);
    assert!(line.pool.allocate().is_none());
}

#[test]
fn publishing_over_an_unconsumed_frame_frees_its_slot() {
    let mut line = line_with(4);
    let _display = line.pool.allocate().unwrap();
    let first = payload(11);
    let second = payload(12);
    send(&mut line, &[SENTINEL]);
    send(&mut line, &first);
    send(&mut line, &[SENTINEL]);
    send(&mut line, &second);
    assert_eq!(line.completed, 2);
    assert_eq!(pending_bytes(&line), Some(second));
    // Display, receiver and mailbox hold one each; the fourth is free.
    assert!(line.pool.allocate().is_some());
    assert!(line.pool.allocate().is_none());
}

#[test]
fn receiver_continues_with_a_zeroed_buffer() {
    let mut line = line_with(3);
    send(&mut line, &[SENTINEL]);
    send(&mut line, &payload(13));
    assert_eq!(line.receiver.frame().image().to_bytes(), [0u8; 192]);
}
