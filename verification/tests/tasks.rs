use heapless::pool::Node;
use ibm437::IBM437_8X8_REGULAR_DATA;
use tp_led_matrix::display::{row_period, Display, REFRESH_RATE};
use tp_led_matrix::gamma::gamma_correct;
use tp_led_matrix::image::{Color, Image};
use tp_led_matrix::ingest::{Receiver, SENTINEL};
use tp_led_matrix::mailbox::{Mailbox, Source};
use tp_led_matrix::matrix::{Matrix, Pin, PinOp};
use tp_led_matrix::pool::FramePool;
use tp_led_matrix::screensaver::{
    banner, notice_change, Screensaver, ANIMATION_PERIOD_MS, BANNER_LEN, DEBOUNCE_MS,
};

fn pool_of(slots: usize) -> FramePool {
    let bytes = slots * core::mem::size_of::<Node<Image>>() + core::mem::align_of::<Node<Image>>() - 1;
    FramePool::new(Box::leak(vec![0u8; bytes].into_boxed_slice()))
}

struct Panel {
    pool: FramePool,
    mailbox: Mailbox,
    matrix: Matrix,
    display: Display,
    receiver: Receiver,
    saver: Screensaver,
    changes: u32,
}

fn panel() -> Panel {
    let mut pool = pool_of(3);
    let display = Display::new(pool.allocate().unwrap());
    let receiver = Receiver::new(pool.allocate().unwrap());
    let mut matrix = Matrix::new();
    let _ = matrix.take_ops();
    Panel {
        pool,
        mailbox: Mailbox::new(),
        matrix,
        display,
        receiver,
        saver: Screensaver::new(),
        changes: 0,
    }
}

fn sweep(panel: &mut Panel) -> Vec<PinOp> {
    for _ in 0..8 {
        panel.display.tick(&mut panel.matrix, &mut panel.mailbox, &mut panel.pool);
    }
    panel.matrix.take_ops()
}

fn receive(panel: &mut Panel, bytes: &[u8]) {
    for b in bytes {
        if panel.receiver.receive_byte(*b, false, &mut panel.mailbox, &mut panel.pool) {
            panel.changes = notice_change(panel.changes);
        }
    }
}

fn saver_tick(panel: &mut Panel) -> u32 {
    panel.saver.tick(panel.changes, &mut panel.mailbox, &mut panel.pool)
}

fn shifted_bytes(ops: &[PinOp]) -> Vec<u8> {
    let mut sda = false;
    let mut sck = false;
    let mut bits: Vec<bool> = Vec::new();
    for op in ops {
        match op {
            PinOp::Write(Pin::Sda, high) => sda = *high,
            PinOp::Write(Pin::Sck, high) => {
                if *high && !sck {
                    bits.push(sda);
                }
                sck = *high;
            }
            _ => {}
        }
    }
    bits.chunks(8)
        .map(|byte| byte.iter().fold(0u8, |acc, bit| (acc << 1) | (*bit as u8)))
        .collect()
}

/// Whether the 8×8 glyph of `c` has the pixel in column `gx`, row `gy` set.
fn glyph_pixel(c: char, gx: usize, gy: usize) -> bool {
    let code = c as usize;
    let index = ((code / 16) * 8 + gy) * 16 + code % 16;
    (IBM437_8X8_REGULAR_DATA[index] >> (7 - gx)) & 1 == 1
}

/// The frame that shows the banner with its left end at column `offset`.
fn expected_pattern(offset: i32, color: Color) -> Image {
    let text: Vec<char> = banner().chars().collect();
    let mut image = Image::default();
    for y in 0..8i32 {
        for x in 0..8i32 {
            let column = x - offset;
            if column >= 0 && (column as usize) < 8 * text.len() {
                let c = text[column as usize / 8];
                if glyph_pixel(c, column as usize % 8, y as usize) {
                    image.draw_pixel(x, y, color);
                }
            }
        }
    }
    image
}

#[test]
fn row_period_is_an_eighth_of_a_sweep() {
    assert_eq!(REFRESH_RATE, 60);
    assert_eq!(row_period(80_000_000), 166_666);
    assert_eq!(row_period(1000), 2);
    assert_eq!(row_period(0), 0);
}

#[test]
fn activity_counter_wraps() {
    assert_eq!(notice_change(0), 1);
    assert_eq!(notice_change(41), 42);
    assert_eq!(notice_change(u32::MAX), 0);
}

#[test]
fn display_sends_one_row_per_tick() {
    let mut p = panel();
    for row in 0..8 {
        assert_eq!(p.display.upcoming_row(), row);
        p.display.tick(&mut p.matrix, &mut p.mailbox, &mut p.pool);
        let ops = p.matrix.take_ops();
        assert_eq!(*ops.last().unwrap(), PinOp::Write(Pin::Row(row), true));
        assert_eq!(shifted_bytes(&ops), vec![0u8; 24]);
    }
    assert_eq!(p.display.upcoming_row(), 0);
}

#[test]
fn display_takes_the_pending_frame_at_the_end_of_a_sweep() {
    let mut p = panel();
    let mut frame = p.pool.allocate().unwrap();
    frame.store(Image::new_solid(Color::new(200, 0, 0)));
    p.mailbox.publish(frame, Source::Ingest, &mut p.pool);
    for _ in 0..7 {
        p.display.tick(&mut p.matrix, &mut p.mailbox, &mut p.pool);
        assert!(p.mailbox.is_pending());
        assert_eq!(p.display.current().image().to_bytes(), [0u8; 192]);
    }
    assert!(p.pool.allocate().is_none());
    p.display.tick(&mut p.matrix, &mut p.mailbox, &mut p.pool);
    assert!(!p.mailbox.is_pending());
    assert_eq!(*p.display.current().image().pixel(3, 3), Color::new(200, 0, 0));
    // The buffer that was on show is back in the pool.
    assert!(p.pool.allocate().is_some());
    assert!(p.pool.allocate().is_none());
}

#[test]
fn display_keeps_its_frame_when_the_mailbox_is_empty() {
    let mut p = panel();
    let first = sweep(&mut p);
    let second = sweep(&mut p);
    assert_eq!(first, second);
    assert_eq!(p.display.current().image().to_bytes(), [0u8; 192]);
    assert!(p.pool.allocate().is_some());
}

#[test]
fn red_frame_end_to_end() {
    // 0xFF cannot travel as payload, so the reddest frame on the wire has
    // 0xFE in every red channel.
    let mut p = panel();
    receive(&mut p, &[SENTINEL]);
    for _ in 0..64 {
        receive(&mut p, &[0xFE, 0x00, 0x00]);
    }
    assert_eq!(p.changes, 1);
    let (frame, source) = p.mailbox.peek().unwrap();
    assert_eq!(source, Source::Ingest);
    assert_eq!(frame.image().to_bytes(), Image::new_solid(Color::new(0xFE, 0, 0)).to_bytes());
    // The sweep in progress still shows the old frame; the next shows red.
    assert_eq!(shifted_bytes(&sweep(&mut p)), vec![0u8; 192]);
    let shifted = shifted_bytes(&sweep(&mut p));
    assert_eq!(shifted.len(), 192);
    for pixel in shifted.chunks(3) {
        assert_eq!(pixel, [gamma_correct(0), gamma_correct(0), gamma_correct(0xFE)]);
    }
    assert_eq!(gamma_correct(0xFE), 252);
}

#[test]
fn owned_buffers_never_exceed_the_pool() {
    let mut p = panel();
    let data: Vec<u8> = (0..192).map(|i| (i % 200) as u8).collect();
    for round in 0..20 {
        receive(&mut p, &[SENTINEL]);
        receive(&mut p, &data);
        if round % 3 == 0 {
            sweep(&mut p);
        }
        saver_tick(&mut p);
        // Display and receiver hold one buffer each.
        let owned = 2 + p.mailbox.is_pending() as usize;
        assert!(owned <= p.pool.slots());
        let spare = p.pool.allocate();
        assert_eq!(spare.is_some(), owned < 3, "round {}", round);
        if let Some(frame) = spare {
            p.pool.free(frame);
        }
    }
}

#[test]
fn banner_text() {
    assert_eq!(banner(), "This Rust SE202 project will get me a good grade?");
    assert_eq!(banner().len() as i32, BANNER_LEN);
}

#[test]
fn idle_line_starts_the_animation() {
    let mut p = panel();
    assert!(p.saver.is_idle(p.changes));
    assert_eq!(p.saver.offset(), 10);
    assert_eq!(saver_tick(&mut p), ANIMATION_PERIOD_MS);
    assert_eq!(ANIMATION_PERIOD_MS, 60);
    assert_eq!(p.saver.offset(), 9);
    let (frame, source) = p.mailbox.peek().unwrap();
    assert_eq!(source, Source::Pattern);
    // At offset 10 the text is still off the panel.
    assert_eq!(frame.image().to_bytes(), [0u8; 192]);
}

#[test]
fn animation_scrolls_the_banner() {
    let mut p = panel();
    for offset in (-20..=10).rev() {
        assert_eq!(p.saver.offset(), offset);
        assert_eq!(saver_tick(&mut p), 60);
        let frame = p.mailbox.take().unwrap();
        assert_eq!(
            frame.image().to_bytes(),
            expected_pattern(offset, Color::red()).to_bytes(),
            "offset {}",
            offset
        );
        p.pool.free(frame);
    }
    // With the text at column 0 the panel shows the letter T.
    let t = expected_pattern(0, Color::red());
    assert_eq!(*t.pixel(0, 1), Color::red());
    assert!(t.to_bytes().iter().any(|b| *b != 0));
}

#[test]
fn animation_waits_while_the_pool_is_exhausted() {
    let mut p = panel();
    assert_eq!(saver_tick(&mut p), 60);
    assert_eq!(p.saver.offset(), 9);
    // The frame was not consumed: no buffer is free for the next one.
    assert_eq!(saver_tick(&mut p), 60);
    assert_eq!(p.saver.offset(), 9);
    sweep(&mut p);
    assert_eq!(saver_tick(&mut p), 60);
    assert_eq!(p.saver.offset(), 8);
}

#[test]
fn animation_changes_colour_after_a_pass() {
    let mut p = panel();
    let mut ticks = 0;
    while p.saver.color() == Color::red() {
        saver_tick(&mut p);
        let frame = p.mailbox.take().unwrap();
        p.pool.free(frame);
        ticks += 1;
        assert!(ticks <= 402);
    }
    // From column 10 down to column -391, then the restart.
    assert_eq!(ticks, 402);
    assert_eq!(p.saver.color(), Color::green());
    assert_eq!(p.saver.offset(), 8);
    for _ in 0..400 {
        saver_tick(&mut p);
        let frame = p.mailbox.take().unwrap();
        p.pool.free(frame);
    }
    assert_eq!(p.saver.color(), Color::blue());
    assert_eq!(p.saver.offset(), 8);
    for _ in 0..400 {
        saver_tick(&mut p);
        let frame = p.mailbox.take().unwrap();
        p.pool.free(frame);
    }
    assert_eq!(p.saver.color(), Color::red());
}

#[test]
fn live_frame_suppresses_the_animation_for_one_interval() {
    let mut p = panel();
    // Idle: the generator publishes at its cadence.
    assert_eq!(saver_tick(&mut p), ANIMATION_PERIOD_MS);
    sweep(&mut p);
    assert_eq!(saver_tick(&mut p), ANIMATION_PERIOD_MS);
    sweep(&mut p);
    assert_eq!(p.saver.offset(), 8);
    // One frame arrives.
    let data: Vec<u8> = (0..192).map(|i| (i % 100) as u8 + 1).collect();
    receive(&mut p, &[SENTINEL]);
    receive(&mut p, &data);
    assert_eq!(p.changes, 1);
    assert!(!p.saver.is_idle(p.changes));
    // The generator stands down and leaves the received frame alone.
    assert_eq!(saver_tick(&mut p), DEBOUNCE_MS);
    assert_eq!(DEBOUNCE_MS, 1000);
    let (frame, source) = p.mailbox.peek().unwrap();
    assert_eq!(source, Source::Ingest);
    assert_eq!(frame.image().to_bytes().to_vec(), data);
    assert_eq!(p.saver.offset(), 8);
    sweep(&mut p);
    assert_eq!(p.display.current().image().to_bytes().to_vec(), data);
    // Nothing arrived during the debounce interval: the animation resumes.
    assert!(p.saver.is_idle(p.changes));
    assert_eq!(saver_tick(&mut p), ANIMATION_PERIOD_MS);
    assert_eq!(p.mailbox.peek().unwrap().1, Source::Pattern);
    assert_eq!(p.saver.offset(), 7);
}

#[test]
fn standing_down_withdraws_an_unconsumed_pattern() {
    let mut p = panel();
    assert_eq!(saver_tick(&mut p), 60);
    assert_eq!(p.mailbox.peek().unwrap().1, Source::Pattern);
    // A frame completes while the pattern still waits: with no free buffer
    // it is dropped, but it counts as activity.
    receive(&mut p, &[SENTINEL]);
    receive(&mut p, &[1u8; 192]);
    assert_eq!(p.changes, 1);
    assert_eq!(p.mailbox.peek().unwrap().1, Source::Pattern);
    assert_eq!(saver_tick(&mut p), 1000);
    assert!(!p.mailbox.is_pending());
    assert!(p.pool.allocate().is_some());
}
