use tp_led_matrix::gamma::gamma_correct;
use tp_led_matrix::image::{Color, Image};
use tp_led_matrix::matrix::{Matrix, Pin, PinOp};

fn fresh() -> Matrix {
    let mut matrix = Matrix::new();
    let _ = matrix.take_ops();
    matrix
}

/// The bytes that the chip shifts in: the data line sampled at every rising
/// edge of the clock.
fn shifted_bytes(ops: &[PinOp]) -> Vec<u8> {
    let mut sda = false;
    let mut sck = false;
    let mut bits: Vec<bool> = Vec::new();
    for op in ops {
        match op {
            PinOp::Write(Pin::Sda, high) => sda = *high,
            PinOp::Write(Pin::Sck, high) => {
                if *high && !sck {
                    bits.push(sda);
                }
                sck = *high;
            }
            _ => {}
        }
    }
    assert_eq!(bits.len() % 8, 0);
    bits.chunks(8)
        .map(|byte| byte.iter().fold(0u8, |acc, bit| (acc << 1) | (*bit as u8)))
        .collect()
}

#[test]
fn power_on_sequence() {
    let mut matrix = Matrix::new();
    let ops = matrix.take_ops();
    let mut expected = vec![
        PinOp::Write(Pin::Sb, true),
        PinOp::Write(Pin::Lat, true),
        PinOp::Write(Pin::Rst, false),
        PinOp::Write(Pin::Sck, false),
        PinOp::Write(Pin::Sda, false),
    ];
    for r in 0..8 {
        expected.push(PinOp::Write(Pin::Row(r), false));
    }
    expected.push(PinOp::DelayMs(100));
    expected.push(PinOp::Write(Pin::Rst, true));
    expected.push(PinOp::Write(Pin::Sb, false));
    expected.push(PinOp::Write(Pin::Sda, true));
    for _ in 0..144 {
        expected.push(PinOp::Write(Pin::Sck, false));
        expected.push(PinOp::Write(Pin::Sck, true));
        expected.push(PinOp::Write(Pin::Sck, false));
    }
    expected.push(PinOp::Write(Pin::Lat, true));
    expected.push(PinOp::Write(Pin::Lat, false));
    expected.push(PinOp::Write(Pin::Lat, true));
    expected.push(PinOp::Write(Pin::Sb, true));
    assert_eq!(ops, expected);
}

#[test]
fn power_on_levels() {
    let matrix = Matrix::new();
    assert!(matrix.is_high(Pin::Sb));
    assert!(matrix.is_high(Pin::Lat));
    assert!(matrix.is_high(Pin::Rst));
    assert!(!matrix.is_high(Pin::Sck));
    assert!(matrix.is_high(Pin::Sda));
    for r in 0..8 {
        assert!(!matrix.is_high(Pin::Row(r)));
    }
}

#[test]
fn bank_init_clocks_144_one_bits() {
    let mut matrix = Matrix::new();
    let ops = matrix.take_ops();
    let start = ops.iter().position(|op| *op == PinOp::Write(Pin::Sb, false)).unwrap();
    let bytes = shifted_bytes(&ops[start..]);
    assert_eq!(bytes, vec![0xFFu8; 18]);
}

#[test]
fn take_ops_empties_the_log() {
    let mut matrix = Matrix::new();
    assert!(!matrix.take_ops().is_empty());
    assert!(matrix.take_ops().is_empty());
    assert!(matrix.is_high(Pin::Rst));
}

#[test]
fn send_row_shifts_bgr_in_reverse_column_order() {
    let mut matrix = fresh();
    let pixels: Vec<Color> = (0..8u8).map(|c| Color::new(10 * c + 100, 10 * c + 101, 10 * c + 102)).collect();
    matrix.send_row(3, &pixels);
    let ops = matrix.take_ops();
    let mut expected: Vec<u8> = Vec::new();
    for c in (0..8).rev() {
        expected.push(gamma_correct(pixels[c].b));
        expected.push(gamma_correct(pixels[c].g));
        expected.push(gamma_correct(pixels[c].r));
    }
    assert_eq!(shifted_bytes(&ops), expected);
}

#[test]
fn send_byte_is_msb_first() {
    let mut matrix = fresh();
    // 200 is corrected to 129 = 0b1000_0001.
    matrix.send_row(0, &[Color::new(0, 0, 200)]);
    let ops = matrix.take_ops();
    let first_byte: Vec<PinOp> = ops[..32].to_vec();
    let mut expected: Vec<PinOp> = Vec::new();
    for bit in [true, false, false, false, false, false, false, true] {
        expected.push(PinOp::Write(Pin::Sda, bit));
        expected.push(PinOp::Write(Pin::Sck, false));
        expected.push(PinOp::Write(Pin::Sck, true));
        expected.push(PinOp::Write(Pin::Sck, false));
    }
    assert_eq!(first_byte, expected);
}

#[test]
fn send_row_exact_sequence() {
    let mut matrix = fresh();
    let pixels = [Color::new(255, 0, 128); 8];
    matrix.send_row(5, &pixels);
    let ops = matrix.take_ops();
    let byte = |value: u8| -> Vec<PinOp> {
        let mut out = Vec::new();
        for k in (0..8).rev() {
            out.push(PinOp::Write(Pin::Sda, (value >> k) & 1 == 1));
            out.push(PinOp::Write(Pin::Sck, false));
            out.push(PinOp::Write(Pin::Sck, true));
            out.push(PinOp::Write(Pin::Sck, false));
        }
        out
    };
    let mut expected: Vec<PinOp> = Vec::new();
    for sent in 0..8 {
        expected.extend(byte(37));
        if sent == 4 {
            for r in 0..8 {
                expected.push(PinOp::Write(Pin::Row(r), false));
            }
        }
        expected.extend(byte(0));
        expected.extend(byte(255));
    }
    expected.push(PinOp::Write(Pin::Lat, true));
    expected.push(PinOp::Write(Pin::Lat, false));
    expected.push(PinOp::Write(Pin::Lat, true));
    expected.push(PinOp::Write(Pin::Row(5), true));
    assert_eq!(ops.len(), 8 * 3 * 32 + 8 + 3 + 1);
    assert_eq!(ops, expected);
}

#[test]
fn rows_go_dark_after_fifth_blue_byte() {
    let mut matrix = fresh();
    matrix.send_row(0, &[Color::black(); 8]);
    let ops = matrix.take_ops();
    let first_row_write = ops.iter().position(|op| matches!(op, PinOp::Write(Pin::Row(_), _))).unwrap();
    // Four whole pixels and one blue byte, 32 operations per byte.
    assert_eq!(first_row_write, (4 * 3 + 1) * 32);
    for r in 0..8 {
        assert_eq!(ops[first_row_write + r], PinOp::Write(Pin::Row(r), false));
    }
}

#[test]
fn exactly_one_row_is_lit() {
    let mut matrix = fresh();
    let image = Image::new_solid(Color::new(1, 2, 3));
    for row in 0..8 {
        matrix.send_row(row, image.row(row));
        for r in 0..8 {
            assert_eq!(matrix.is_high(Pin::Row(r)), r == row);
        }
        assert!(matrix.is_high(Pin::Lat));
        assert!(!matrix.is_high(Pin::Sck));
    }
}

#[test]
fn short_row_keeps_earlier_rows_lit() {
    let mut matrix = fresh();
    matrix.send_row(1, &[Color::black(); 8]);
    matrix.send_row(2, &[Color::black(); 4]);
    assert!(matrix.is_high(Pin::Row(1)));
    assert!(matrix.is_high(Pin::Row(2)));
    let _ = matrix.take_ops();
    matrix.send_row(6, &[]);
    assert_eq!(
        matrix.take_ops(),
        vec![
            PinOp::Write(Pin::Lat, true),
            PinOp::Write(Pin::Lat, false),
            PinOp::Write(Pin::Lat, true),
            PinOp::Write(Pin::Row(6), true),
        ]
    );
}

#[test]
fn display_image_sends_rows_in_order() {
    let mut image = Image::default();
    for r in 0..8 {
        for c in 0..8 {
            image.set_pixel(r, c, Color::new((8 * r + c) as u8 + 100, 0, 0));
        }
    }
    let mut whole = fresh();
    whole.display_image(&image);
    let mut by_row = fresh();
    for r in 0..8 {
        by_row.send_row(r, image.row(r));
    }
    let ops = whole.take_ops();
    assert_eq!(ops, by_row.take_ops());
    let lit: Vec<usize> = ops
        .iter()
        .filter_map(|op| match op {
            PinOp::Write(Pin::Row(r), true) => Some(*r),
            _ => None,
        })
        .collect();
    assert_eq!(lit, vec![0, 1, 2, 3, 4, 5, 6, 7]);
    assert_eq!(shifted_bytes(&ops).len(), 192);
}
